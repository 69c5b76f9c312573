use vstd::prelude::*;

verus! {

/// How the output canvas of a framing operation is chosen.
///
/// `Dimensions(w, h)` asks for an exact pixel size; the source is stretched to
/// fill it, so no border appears. `AspectRatio(w, h)` asks for a `w : h`
/// shape; the source keeps its pixels and white bars extend whichever axis the
/// ratio leaves short. The ratio is an exact integer pair: a caller holding a
/// fractional ratio scales both components by one factor first, which keeps
/// the quotient, and the comparisons here stay exact.
#[derive(Clone, Copy, Debug, PartialEq, Eq, Structural)]
pub enum Sizing {
    Dimensions(u32, u32),
    AspectRatio(u64, u64),
}

/// Why a framing operation failed.
#[derive(Clone, Copy, Debug, PartialEq, Eq, Structural)]
pub enum FrameError {
    /// The input bytes are not a decodable image in a supported format.
    DecodeError,
    /// The requested shape is degenerate (a zero component) or the canvas it
    /// asks for is too large to address.
    ResizeError,
    /// A computed canvas matched the source on neither axis. The framing
    /// functions prove this cannot happen; the variant exists so that callers
    /// see the full taxonomy of the operation.
    GeometryError,
    /// The output extension is not recognized, or the encoder refused the
    /// canvas.
    EncodeError,
}

/// `n / d` rounded to the nearest integer, halves rounded up.
pub open spec fn round_div(n: int, d: int) -> int
    recommends
        0 <= n,
        1 <= d,
{
    (2 * n + d) / (2 * d)
}

/// In `AspectRatio(rw, rh)` mode the bars are vertical (left and right) when
/// the source is tall relative to the requested shape, that is when
/// `sw / rw < sh / rh`. The quotients are compared exactly, as
/// `sw * rh < sh * rw`.
pub open spec fn bars_vertical(sw: int, sh: int, rw: int, rh: int) -> bool {
    sw * rh < sh * rw
}

/// Canvas width for `AspectRatio(rw, rh)` framing of a `sw`-by-`sh` source:
/// with vertical bars the height is kept and the width is extended to
/// `round(sh * rw / rh)`; otherwise the source width is kept.
pub open spec fn ratio_canvas_w(sw: int, sh: int, rw: int, rh: int) -> int {
    if bars_vertical(sw, sh, rw, rh) {
        round_div(sh * rw, rh)
    } else {
        sw
    }
}

/// Canvas height for `AspectRatio(rw, rh)` framing of a `sw`-by-`sh` source:
/// with horizontal bars the width is kept and the height is extended to
/// `round(sw * rh / rw)`; otherwise the source height is kept.
pub open spec fn ratio_canvas_h(sw: int, sh: int, rw: int, rh: int) -> int {
    if bars_vertical(sw, sh, rw, rh) {
        sh
    } else {
        round_div(sw * rh, rw)
    }
}

/// The offset that centers a source extent of `s` inside a canvas extent of
/// `c`, truncating: an odd difference leaves the far bar one pixel wider.
pub open spec fn center_off(c: int, s: int) -> int {
    (c - s) / 2
}

/// Rounding never loses more than half of the divisor: the rounded quotient
/// `q = round_div(n, d)` satisfies `-d < 2 * (q * d - n) <= d`.
pub proof fn lemma_round_div_error(n: int, d: int)
    by (nonlinear_arith)
    requires
        0 <= n,
        1 <= d,
    ensures
        -d < 2 * (round_div(n, d) * d - n) <= d,
{
}

/// The rounded quotient dominates any exact lower bound: if `x * d <= n` then
/// `x <= round_div(n, d)`.
pub proof fn lemma_round_div_lower(n: int, d: int, x: int)
    by (nonlinear_arith)
    requires
        0 <= n,
        1 <= d,
        0 <= x,
        x * d <= n,
    ensures
        x <= round_div(n, d),
{
}

/// Rounding an exact multiple returns the exact quotient.
pub proof fn lemma_round_div_exact(x: int, d: int)
    by (nonlinear_arith)
    requires
        0 <= x,
        1 <= d,
    ensures
        round_div(x * d, d) == x,
{
}

/// The shape that `AspectRatio(rw, rh)` framing gives a `sw`-by-`sh` source:
/// the canvas contains the source on both axes, equals it on the bar-free
/// axis, and the canvas shape differs from the requested ratio by at most half
/// a pixel of rounding on the extended axis.
pub proof fn lemma_ratio_canvas_shape(sw: int, sh: int, rw: int, rh: int)
    requires
        1 <= sw,
        1 <= sh,
        1 <= rw,
        1 <= rh,
    ensures
        ratio_canvas_w(sw, sh, rw, rh) >= sw,
        ratio_canvas_h(sw, sh, rw, rh) >= sh,
        ratio_canvas_w(sw, sh, rw, rh) == sw || ratio_canvas_h(sw, sh, rw, rh) == sh,
        bars_vertical(sw, sh, rw, rh) ==> ratio_canvas_h(sw, sh, rw, rh) == sh && -rh < 2 * (
        ratio_canvas_w(sw, sh, rw, rh) * rh - sh * rw) <= rh,
        !bars_vertical(sw, sh, rw, rh) ==> ratio_canvas_w(sw, sh, rw, rh) == sw && -rw < 2 * (
        ratio_canvas_h(sw, sh, rw, rh) * rw - sw * rh) <= rw,
{
    if bars_vertical(sw, sh, rw, rh) {
        assert(sw * rh <= sh * rw) by (nonlinear_arith)
            requires
                sw * rh < sh * rw,
        ;
        lemma_round_div_lower(sh * rw, rh, sw);
        lemma_round_div_error(sh * rw, rh);
    } else {
        assert(sh * rw <= sw * rh) by (nonlinear_arith)
            requires
                !(sw * rh < sh * rw),
        ;
        lemma_round_div_lower(sw * rh, rw, sh);
        lemma_round_div_error(sw * rh, rw);
    }
}

/// A source whose shape already satisfies the requested ratio exactly is not
/// padded: the canvas equals the source on both axes and the placement offset
/// is zero. Re-framing such an image with the same ratio is an identity on its
/// shape.
pub proof fn lemma_exact_ratio_identity(sw: int, sh: int, rw: int, rh: int)
    requires
        1 <= sw,
        1 <= sh,
        1 <= rw,
        1 <= rh,
        sw * rh == sh * rw,
    ensures
        ratio_canvas_w(sw, sh, rw, rh) == sw,
        ratio_canvas_h(sw, sh, rw, rh) == sh,
        center_off(ratio_canvas_w(sw, sh, rw, rh), sw) == 0,
        center_off(ratio_canvas_h(sw, sh, rw, rh), sh) == 0,
{
    assert(!bars_vertical(sw, sh, rw, rh));
    lemma_round_div_exact(sh, rw);
}

/// Centering splits the border evenly: the near bar `center_off(c, s)` and the
/// far bar `c - s - center_off(c, s)` differ by at most one pixel, and the
/// source fits.
pub proof fn lemma_centering_symmetry(c: int, s: int)
    requires
        0 <= s <= c,
    ensures
        0 <= center_off(c, s),
        center_off(c, s) + s <= c,
        ({
            let near = center_off(c, s);
            let far = c - s - near;
            far - near == 0 || far - near == 1
        }),
{
}

/// Canvas dimensions for `AspectRatio(rw, rh)` framing of a `sw`-by-`sh`
/// source, or `None` when the extended axis does not fit in `u32`.
pub fn ratio_canvas(sw: u32, sh: u32, rw: u64, rh: u64) -> (r: Option<(u32, u32)>)
    requires
        1 <= sw,
        1 <= sh,
        1 <= rw,
        1 <= rh,
    ensures
        ({
            let cw = ratio_canvas_w(sw as int, sh as int, rw as int, rh as int);
            let ch = ratio_canvas_h(sw as int, sh as int, rw as int, rh as int);
            if cw <= u32::MAX && ch <= u32::MAX {
                r == Some((cw as u32, ch as u32))
            } else {
                r is None
            }
        }),
{
    proof {
        lemma_ratio_canvas_shape(sw as int, sh as int, rw as int, rh as int);
    }
    let swu = sw as u128;
    let shu = sh as u128;
    let rwu = rw as u128;
    let rhu = rh as u128;
    assert(swu * rhu <= 0xffff_ffff * 0xffff_ffff_ffff_ffff && shu * rwu <= 0xffff_ffff
        * 0xffff_ffff_ffff_ffff) by (nonlinear_arith)
        requires
            swu <= 0xffff_ffff,
            shu <= 0xffff_ffff,
            rwu <= 0xffff_ffff_ffff_ffff,
            rhu <= 0xffff_ffff_ffff_ffff,
    ;
    if swu * rhu < shu * rwu {
        let cw = (2 * (shu * rwu) + rhu) / (2 * rhu);
        assert(cw == round_div((sh * rw) as int, rh as int));
        if cw <= u32::MAX as u128 {
            Some((cw as u32, sh))
        } else {
            None
        }
    } else {
        let ch = (2 * (swu * rhu) + rwu) / (2 * rwu);
        assert(ch == round_div((sw * rh) as int, rw as int));
        if ch <= u32::MAX as u128 {
            Some((sw, ch as u32))
        } else {
            None
        }
    }
}

} // verus!
