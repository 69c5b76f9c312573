use vstd::prelude::*;

use crate::buffer::{
    composite, framed_data, in_rect, lemma_index_bound, lemma_index_decomp, pix, white_canvas,
    Image,
};
use crate::codec::{
    decode_image, decoded_image_of, encode_image, encode_result_of, format_for_extension,
    resize_lanczos, resize_of, spec_format_for_extension,
};
use crate::geometry::{
    center_off, lemma_ratio_canvas_shape, ratio_canvas, ratio_canvas_h, ratio_canvas_w, FrameError,
    Sizing,
};

verus! {

/// Whether a `sw`-by-`sh` source can be framed with `sizing`: both
/// components of the requested shape must be positive, and the canvas they
/// yield must be addressable (each dimension fits `u32` and its byte length
/// fits `usize`). In `Dimensions` mode the resampler's intermediate buffer —
/// four float channels, source width by target height — must be addressable
/// too.
pub open spec fn frame_ok(sw: int, sh: int, sizing: Sizing) -> bool {
    match sizing {
        Sizing::Dimensions(w, h) => 1 <= w && 1 <= h && 3 * w * h <= usize::MAX && 4 * sw * h
            <= usize::MAX,
        Sizing::AspectRatio(rw, rh) => {
            let cw = ratio_canvas_w(sw, sh, rw as int, rh as int);
            let ch = ratio_canvas_h(sw, sh, rw as int, rh as int);
            &&& 1 <= rw
            &&& 1 <= rh
            &&& cw <= u32::MAX
            &&& ch <= u32::MAX
            &&& 3 * cw * ch <= usize::MAX
        },
    }
}

/// The width of the framed output of a `sw`-by-`sh` source.
pub open spec fn frame_w(sw: int, sh: int, sizing: Sizing) -> int {
    match sizing {
        Sizing::Dimensions(w, h) => w as int,
        Sizing::AspectRatio(rw, rh) => ratio_canvas_w(sw, sh, rw as int, rh as int),
    }
}

/// The height of the framed output of a `sw`-by-`sh` source.
pub open spec fn frame_h(sw: int, sh: int, sizing: Sizing) -> int {
    match sizing {
        Sizing::Dimensions(w, h) => h as int,
        Sizing::AspectRatio(rw, rh) => ratio_canvas_h(sw, sh, rw as int, rh as int),
    }
}

/// The pixel bytes of the framed output: in `Dimensions` mode the stretched
/// source itself (the canvas coincides with it, so no border shows), in
/// `AspectRatio` mode the unscaled source centered on a white canvas.
pub open spec fn frame_result(d: Seq<u8>, sw: int, sh: int, sizing: Sizing) -> Seq<u8> {
    match sizing {
        Sizing::Dimensions(w, h) => resize_of(d, sw, sh, w as int, h as int),
        Sizing::AspectRatio(rw, rh) => {
            let cw = ratio_canvas_w(sw, sh, rw as int, rh as int);
            let ch = ratio_canvas_h(sw, sh, rw as int, rh as int);
            framed_data(d, sw, sh, cw, ch, center_off(cw, sw), center_off(ch, sh))
        },
    }
}

/// The shape law of `AspectRatio` framing: the output contains the source on
/// both axes, equals it on the bar-free axis, and the output shape differs
/// from the requested `rw : rh` ratio by at most half a pixel of rounding on
/// the extended axis.
pub proof fn lemma_frame_shape(sw: int, sh: int, rw: u64, rh: u64)
    requires
        1 <= sw,
        1 <= sh,
        1 <= rw,
        1 <= rh,
    ensures
        frame_w(sw, sh, Sizing::AspectRatio(rw, rh)) >= sw,
        frame_h(sw, sh, Sizing::AspectRatio(rw, rh)) >= sh,
        frame_w(sw, sh, Sizing::AspectRatio(rw, rh)) == sw || frame_h(
            sw,
            sh,
            Sizing::AspectRatio(rw, rh),
        ) == sh,
        ({
            let cw = frame_w(sw, sh, Sizing::AspectRatio(rw, rh));
            let ch = frame_h(sw, sh, Sizing::AspectRatio(rw, rh));
            let err = 2 * (cw * rh - ch * rw);
            -(rh as int) < err <= rh || -(rw as int) < -err <= rw
        }),
{
    lemma_ratio_canvas_shape(sw, sh, rw as int, rh as int);
}

/// The idempotence law of `AspectRatio` framing: a source whose shape
/// already satisfies the requested ratio exactly is returned unchanged, in
/// shape and in pixels, so framing its output again adds nothing.
pub proof fn lemma_exact_ratio_frame_identity(d: Seq<u8>, sw: int, sh: int, rw: u64, rh: u64)
    requires
        1 <= sw,
        1 <= sh,
        1 <= rw,
        1 <= rh,
        d.len() == 3 * sw * sh,
        sw * (rh as int) == sh * (rw as int),
    ensures
        frame_w(sw, sh, Sizing::AspectRatio(rw, rh)) == sw,
        frame_h(sw, sh, Sizing::AspectRatio(rw, rh)) == sh,
        frame_result(d, sw, sh, Sizing::AspectRatio(rw, rh)) == d,
{
    crate::geometry::lemma_exact_ratio_identity(sw, sh, rw as int, rh as int);
    crate::buffer::lemma_borderless_framed_data(d, sw, sh);
}

/// Frame a decoded source image: derive the canvas shape from `sizing`,
/// stretch the source in `Dimensions` mode, then fill a solid white canvas
/// and composite the source onto its center.
pub fn frame_buffer(src: &Image, sizing: Sizing) -> (r: Result<Image, FrameError>)
    requires
        src.wf(),
    ensures
        match r {
            Ok(out) => {
                &&& frame_ok(src.width as int, src.height as int, sizing)
                &&& out.wf()
                &&& out.width == frame_w(src.width as int, src.height as int, sizing)
                &&& out.height == frame_h(src.width as int, src.height as int, sizing)
                &&& out.data@ == frame_result(
                    src.data@,
                    src.width as int,
                    src.height as int,
                    sizing,
                )
            },
            Err(e) => {
                &&& e == FrameError::ResizeError
                &&& !frame_ok(src.width as int, src.height as int, sizing)
            },
        },
{
    match sizing {
        Sizing::Dimensions(w, h) => {
            if w == 0 || h == 0 {
                return Err(FrameError::ResizeError);
            }
            assert(3 * (w as u128) * (h as u128) < 0xffff_ffff_ffff_ffff_ffff && 4 * (
            src.width as u128) * (h as u128) < 0xffff_ffff_ffff_ffff_ffff) by (nonlinear_arith)
                requires
                    w <= 0xffff_ffffu128 && h <= 0xffff_ffffu128 && src.width <= 0xffff_ffffu128,
            ;
            let bytes: u128 = 3 * (w as u128) * (h as u128);
            if bytes > usize::MAX as u128 {
                return Err(FrameError::ResizeError);
            }
            let mid: u128 = 4 * (src.width as u128) * (h as u128);
            if mid > usize::MAX as u128 {
                return Err(FrameError::ResizeError);
            }
            let resized = resize_lanczos(src, w, h);
            let mut canvas = white_canvas(w, h);
            composite(&mut canvas, &resized, 0, 0);
            proof {
                assert forall|i: int| 0 <= i < canvas.data@.len() implies canvas.data@[i]
                    == resized.data@[i] by {
                    lemma_index_decomp(w as int, h as int, i);
                    let yy = i / (3 * (w as int));
                    let rr = i % (3 * (w as int));
                    let xx = rr / 3;
                    let cc = rr % 3;
                    assert(pix(canvas.data@, w as int, xx, yy, cc) == pix(
                        resized.data@,
                        w as int,
                        xx,
                        yy,
                        cc,
                    ));
                }
                assert(canvas.data@ =~= resized.data@);
            }
            Ok(canvas)
        },
        Sizing::AspectRatio(rw, rh) => {
            if rw == 0 || rh == 0 {
                return Err(FrameError::ResizeError);
            }
            proof {
                lemma_ratio_canvas_shape(src.width as int, src.height as int, rw as int, rh as int);
            }
            match ratio_canvas(src.width, src.height, rw, rh) {
                None => Err(FrameError::ResizeError),
                Some((cw, ch)) => {
                    assert(3 * (cw as u128) * (ch as u128) < 0xffff_ffff_ffff_ffff_ffff)
                        by (nonlinear_arith)
                        requires
                            cw <= 0xffff_ffffu128 && ch <= 0xffff_ffffu128,
                    ;
                    let bytes: u128 = 3 * (cw as u128) * (ch as u128);
                    if bytes > usize::MAX as u128 {
                        return Err(FrameError::ResizeError);
                    }
                    let ox = (cw - src.width) / 2;
                    let oy = (ch - src.height) / 2;
                    let mut canvas = white_canvas(cw, ch);
                    composite(&mut canvas, src, ox, oy);
                    proof {
                        let swi = src.width as int;
                        let shi = src.height as int;
                        let cwi = cw as int;
                        let chi = ch as int;
                        let oxi = ox as int;
                        let oyi = oy as int;
                        let expected = framed_data(src.data@, swi, shi, cwi, chi, oxi, oyi);
                        assert forall|i: int| 0 <= i < 3 * cwi * chi implies canvas.data@[i]
                            == expected[i] by {
                            lemma_index_decomp(cwi, chi, i);
                            let yy = i / (3 * cwi);
                            let rr = i % (3 * cwi);
                            let xx = rr / 3;
                            let cc = rr % 3;
                            lemma_index_bound(cwi, chi, xx, yy, cc);
                            assert(pix(canvas.data@, cwi, xx, yy, cc) == (if in_rect(
                                xx,
                                yy,
                                oxi,
                                oyi,
                                swi,
                                shi,
                            ) {
                                pix(src.data@, swi, xx - oxi, yy - oyi, cc)
                            } else {
                                255u8
                            }));
                        }
                        assert(canvas.data@ =~= expected);
                    }
                    Ok(canvas)
                },
            }
        },
    }
}

/// Frame an encoded image: decode `input`, size and composite it according
/// to `sizing`, and encode the result in the format named by `output_ext`.
///
/// The errors mirror the pipeline stages in order: input that does not
/// decode in a supported format is a `DecodeError`; a shape that cannot be
/// framed is a `ResizeError`; an unrecognized output extension, or an
/// encoder refusal, is an `EncodeError`. On success the returned bytes are
/// exactly the encoding of the framed pixels.
pub fn frame_image(input: &Vec<u8>, output_ext: &str, sizing: Sizing) -> (r: Result<
    Vec<u8>,
    FrameError,
>)
    ensures
        match r {
            Ok(bytes) => (decoded_image_of(input@) matches Some((sw, sh, d))
                && spec_format_for_extension(output_ext@) matches Some(f) && frame_ok(
                sw as int,
                sh as int,
                sizing,
            ) && encode_result_of(
                frame_result(d, sw as int, sh as int, sizing),
                frame_w(sw as int, sh as int, sizing),
                frame_h(sw as int, sh as int, sizing),
                f,
            ) == Some(bytes@)),
            Err(e) => match e {
                FrameError::DecodeError => (match decoded_image_of(input@) {
                    Some((sw, sh, d)) => sw == 0 || sh == 0,
                    None => true,
                }),
                FrameError::ResizeError => (decoded_image_of(input@) matches Some((sw, sh, d))
                    && !frame_ok(sw as int, sh as int, sizing)),
                FrameError::EncodeError => (decoded_image_of(input@) matches Some((sw, sh, d))
                    && frame_ok(sw as int, sh as int, sizing) && (spec_format_for_extension(
                    output_ext@,
                ) is None || (spec_format_for_extension(output_ext@) matches Some(f)
                    && encode_result_of(
                    frame_result(d, sw as int, sh as int, sizing),
                    frame_w(sw as int, sh as int, sizing),
                    frame_h(sw as int, sh as int, sizing),
                    f,
                ) is None))),
                FrameError::GeometryError => false,
            },
        },
{
    let img = match decode_image(input) {
        Ok(img) => img,
        Err(e) => {
            return Err(e);
        },
    };
    let framed = match frame_buffer(&img, sizing) {
        Ok(framed) => framed,
        Err(e) => {
            return Err(e);
        },
    };
    let format = match format_for_extension(output_ext) {
        Some(format) => format,
        None => {
            return Err(FrameError::EncodeError);
        },
    };
    encode_image(&framed, format)
}

} // verus!
