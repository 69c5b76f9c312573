use framer::buffer::Image;
use framer::framing::frame_buffer;
use framer::geometry::{FrameError, Sizing};

/// A deterministic test pattern whose bytes never reach 255, so no source
/// pixel can be confused with the white border.
fn pattern_image(w: u32, h: u32) -> Image {
    let mut data = Vec::new();
    for y in 0..h {
        for x in 0..w {
            data.push((x % 251) as u8);
            data.push((y % 241) as u8);
            data.push(((x + y) % 239) as u8);
        }
    }
    Image {
        width: w,
        height: h,
        data,
    }
}

fn solid_image(w: u32, h: u32, rgb: (u8, u8, u8)) -> Image {
    let mut data = Vec::new();
    for _ in 0..w * h {
        data.push(rgb.0);
        data.push(rgb.1);
        data.push(rgb.2);
    }
    Image {
        width: w,
        height: h,
        data,
    }
}

fn pixel(img: &Image, x: u32, y: u32) -> (u8, u8, u8) {
    let i = 3 * ((y * img.width + x) as usize);
    (img.data[i], img.data[i + 1], img.data[i + 2])
}

#[test]
fn aspect_ratio_tall_source_adds_vertical_bars() {
    // 100x200 source with a 1:1 target: 200x200 canvas, 50-pixel bars on
    // each side, source placed unscaled at (50, 0).
    let src = pattern_image(100, 200);
    let out = frame_buffer(&src, Sizing::AspectRatio(1, 1)).unwrap();
    assert_eq!(out.width, 200);
    assert_eq!(out.height, 200);
    for y in 0..200 {
        for x in 0..200 {
            if (50..150).contains(&x) {
                assert_eq!(pixel(&out, x, y), pixel(&src, x - 50, y));
            } else {
                assert_eq!(pixel(&out, x, y), (255, 255, 255));
            }
        }
    }
}

#[test]
fn aspect_ratio_wide_source_adds_horizontal_bars() {
    // 1920x1080 source with a 1:1 target: 1920x1920 canvas, source at
    // (0, 420).
    let src = solid_image(1920, 1080, (10, 20, 30));
    let out = frame_buffer(&src, Sizing::AspectRatio(1, 1)).unwrap();
    assert_eq!(out.width, 1920);
    assert_eq!(out.height, 1920);
    assert_eq!(pixel(&out, 0, 419), (255, 255, 255));
    assert_eq!(pixel(&out, 0, 420), (10, 20, 30));
    assert_eq!(pixel(&out, 1919, 1499), (10, 20, 30));
    assert_eq!(pixel(&out, 1919, 1500), (255, 255, 255));
    let top = (0..1920)
        .take_while(|&y| (0..1920).all(|x| pixel(&out, x, y) == (255, 255, 255)))
        .count();
    let bottom = (0..1920)
        .rev()
        .take_while(|&y| (0..1920).all(|x| pixel(&out, x, y) == (255, 255, 255)))
        .count();
    assert_eq!(top, 420);
    assert_eq!(bottom, 420);
}

#[test]
fn dimensions_mode_stretches_to_exact_shape() {
    // 800x600 source stretched to 1080x1080: the canvas coincides with the
    // resized source, no border shows.
    let src = pattern_image(800, 600);
    let out = frame_buffer(&src, Sizing::Dimensions(1080, 1080)).unwrap();
    assert_eq!(out.width, 1080);
    assert_eq!(out.height, 1080);
    assert_eq!(out.data.len(), 3 * 1080 * 1080);
}

#[test]
fn dimensions_mode_output_has_requested_shape() {
    let src = pattern_image(3, 3);
    let out = frame_buffer(&src, Sizing::Dimensions(7, 5)).unwrap();
    assert_eq!(out.width, 7);
    assert_eq!(out.height, 5);
}

#[test]
fn dimensions_mode_resamples_the_pixels() {
    // Shrinking a half-dark, half-light image mixes the two halves; if the
    // resize handed its input back unchanged the buffer length would be
    // wrong and the center column could not hold a blended value.
    let mut src = solid_image(100, 100, (0, 0, 0));
    for y in 0..100 {
        for x in 50..100 {
            let i = 3 * ((y * 100 + x) as usize);
            src.data[i] = 200;
            src.data[i + 1] = 200;
            src.data[i + 2] = 200;
        }
    }
    let out = frame_buffer(&src, Sizing::Dimensions(10, 10)).unwrap();
    assert_eq!(out.width, 10);
    assert_eq!(out.height, 10);
    assert_eq!(out.data.len(), 3 * 10 * 10);
    assert_eq!(pixel(&out, 0, 5).0, 0);
    assert_eq!(pixel(&out, 9, 5).0, 200);
}

#[test]
fn zero_shape_components_are_rejected() {
    let src = pattern_image(4, 4);
    assert_eq!(
        frame_buffer(&src, Sizing::Dimensions(0, 10)),
        Err(FrameError::ResizeError)
    );
    assert_eq!(
        frame_buffer(&src, Sizing::Dimensions(10, 0)),
        Err(FrameError::ResizeError)
    );
    assert_eq!(
        frame_buffer(&src, Sizing::AspectRatio(0, 1)),
        Err(FrameError::ResizeError)
    );
    assert_eq!(
        frame_buffer(&src, Sizing::AspectRatio(1, 0)),
        Err(FrameError::ResizeError)
    );
}

#[test]
fn exact_ratio_framing_is_identity() {
    // A source that already satisfies the requested ratio is not padded:
    // the output equals the input, and framing again changes nothing.
    let src = pattern_image(200, 100);
    let once = frame_buffer(&src, Sizing::AspectRatio(2, 1)).unwrap();
    assert_eq!(once.width, 200);
    assert_eq!(once.height, 100);
    assert_eq!(once.data, src.data);
    let twice = frame_buffer(&once, Sizing::AspectRatio(2, 1)).unwrap();
    assert_eq!(twice.width, 200);
    assert_eq!(twice.height, 100);
    assert_eq!(twice.data, src.data);
}

#[test]
fn framed_output_needs_no_further_padding() {
    // Framing an already-framed image with the same ratio keeps its shape.
    let src = pattern_image(123, 77);
    let once = frame_buffer(&src, Sizing::AspectRatio(16, 9)).unwrap();
    let twice = frame_buffer(&once, Sizing::AspectRatio(16, 9)).unwrap();
    assert_eq!(twice.width, once.width);
    assert_eq!(twice.height, once.height);
    assert_eq!(twice.data, once.data);
}

#[test]
fn centered_bars_differ_by_at_most_one_pixel() {
    // 99x200 source, 1:1 target: a 101-pixel border splits as 50 and 51.
    let src = pattern_image(99, 200);
    let out = frame_buffer(&src, Sizing::AspectRatio(1, 1)).unwrap();
    assert_eq!(out.width, 200);
    assert_eq!(out.height, 200);
    let all_white = |x: u32| (0..200).all(|y| pixel(&out, x, y) == (255, 255, 255));
    let left = (0..200).take_while(|&x| all_white(x)).count();
    let right = (0..200).rev().take_while(|&x| all_white(x)).count();
    assert_eq!(left, 50);
    assert_eq!(right, 51);
}

#[test]
fn near_equal_ratio_rounds_to_the_source_shape() {
    // 10x41 source with a 1:4 target: the extended width rounds back to 10,
    // so the output keeps the source shape on both axes.
    let src = pattern_image(10, 41);
    let out = frame_buffer(&src, Sizing::AspectRatio(1, 4)).unwrap();
    assert_eq!(out.width, 10);
    assert_eq!(out.height, 41);
    assert_eq!(out.data, src.data);
}

#[test]
fn aspect_ratio_shape_stays_within_rounding() {
    // 123x77 source with a 16:9 target: vertical bars, width
    // round(77 * 16 / 9) = 137, and 137 * 9 differs from 77 * 16 by one.
    let src = pattern_image(123, 77);
    let out = frame_buffer(&src, Sizing::AspectRatio(16, 9)).unwrap();
    assert_eq!(out.width, 137);
    assert_eq!(out.height, 77);
    assert!(out.width >= src.width);
    assert!(out.height >= src.height);
    assert!(2 * (out.width as i64 * 9 - out.height as i64 * 16).abs() <= 9);
}
