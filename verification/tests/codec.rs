use framer::buffer::Image;
use framer::codec::{decode_image, encode_image, format_for_extension, ImageFormat};
use framer::framing::frame_image;
use framer::geometry::{FrameError, Sizing};

fn sample_image(w: u32, h: u32) -> Image {
    let mut data = Vec::new();
    for y in 0..h {
        for x in 0..w {
            data.push((x % 251) as u8);
            data.push((y % 241) as u8);
            data.push(((x + y) % 239) as u8);
        }
    }
    Image {
        width: w,
        height: h,
        data,
    }
}

fn pixel_at(img: &Image, x: u32, y: u32) -> (u8, u8, u8) {
    let i = 3 * ((y * img.width + x) as usize);
    (img.data[i], img.data[i + 1], img.data[i + 2])
}

#[test]
fn garbage_bytes_are_a_decode_error() {
    let garbage = vec![0u8, 1, 2, 3, 4, 5, 6, 7, 8, 9];
    assert_eq!(decode_image(&garbage), Err(FrameError::DecodeError));
}

#[test]
fn truncated_png_is_a_decode_error() {
    // The PNG magic followed by nothing useful: the format is recognized
    // but the stream is corrupt.
    let truncated = vec![137u8, 80, 78, 71, 13, 10, 26, 10, 0, 0];
    assert_eq!(decode_image(&truncated), Err(FrameError::DecodeError));
}

#[test]
fn unsupported_format_is_a_decode_error() {
    // A minimal well-formed GIF header: decodable by many tools, but GIF is
    // not one of the supported input formats here.
    let mut gif = b"GIF89a".to_vec();
    gif.extend_from_slice(&[1, 0, 1, 0, 0, 0, 0, 59]);
    assert_eq!(decode_image(&gif), Err(FrameError::DecodeError));
}

#[test]
fn extension_names_its_encoding() {
    assert_eq!(format_for_extension("jpg"), Some(ImageFormat::Jpeg));
    assert_eq!(format_for_extension("jpeg"), Some(ImageFormat::Jpeg));
    assert_eq!(format_for_extension("png"), Some(ImageFormat::Png));
    assert_eq!(format_for_extension("webp"), Some(ImageFormat::Webp));
    assert_eq!(format_for_extension("bmp"), None);
    assert_eq!(format_for_extension("gif"), None);
    assert_eq!(format_for_extension(""), None);
    assert_eq!(format_for_extension("pngx"), None);
}

#[test]
fn png_round_trip_is_lossless() {
    let src = sample_image(20, 10);
    let bytes = encode_image(&src, ImageFormat::Png).unwrap();
    let back = decode_image(&bytes).unwrap();
    assert_eq!(back.width, 20);
    assert_eq!(back.height, 10);
    assert_eq!(back.data, src.data);
}

#[test]
fn webp_round_trip_is_lossless() {
    let src = sample_image(16, 16);
    let bytes = encode_image(&src, ImageFormat::Webp).unwrap();
    let back = decode_image(&bytes).unwrap();
    assert_eq!(back.width, 16);
    assert_eq!(back.height, 16);
    assert_eq!(back.data, src.data);
}

#[test]
fn jpeg_round_trip_keeps_the_shape() {
    let src = sample_image(32, 8);
    let bytes = encode_image(&src, ImageFormat::Jpeg).unwrap();
    let back = decode_image(&bytes).unwrap();
    assert_eq!(back.width, 32);
    assert_eq!(back.height, 8);
}

#[test]
fn oversized_jpeg_is_an_encode_error() {
    // The JPEG encoder cannot hold a dimension above 65535.
    let src = sample_image(1, 70000);
    assert_eq!(
        encode_image(&src, ImageFormat::Jpeg),
        Err(FrameError::EncodeError)
    );
}

#[test]
fn unrecognized_output_extension_is_an_encode_error() {
    let src = sample_image(10, 10);
    let bytes = encode_image(&src, ImageFormat::Png).unwrap();
    assert_eq!(
        frame_image(&bytes, "bmp", Sizing::AspectRatio(1, 1)),
        Err(FrameError::EncodeError)
    );
}

#[test]
fn frame_image_rejects_undecodable_input() {
    let garbage = vec![9u8; 64];
    assert_eq!(
        frame_image(&garbage, "png", Sizing::AspectRatio(1, 1)),
        Err(FrameError::DecodeError)
    );
}

#[test]
fn frame_image_end_to_end_letterboxes_through_png() {
    // The whole pipeline on encoded bytes: decode, frame 100x200 to 1:1,
    // re-encode as PNG; PNG is lossless, so the decoded output shows the
    // source centered between white bars.
    let src = sample_image(100, 200);
    let input = encode_image(&src, ImageFormat::Png).unwrap();
    let output = frame_image(&input, "png", Sizing::AspectRatio(1, 1)).unwrap();
    let out = decode_image(&output).unwrap();
    assert_eq!(out.width, 200);
    assert_eq!(out.height, 200);
    for y in 0..200 {
        for x in 0..200 {
            if (50..150).contains(&x) {
                assert_eq!(pixel_at(&out, x, y), pixel_at(&src, x - 50, y));
            } else {
                assert_eq!(pixel_at(&out, x, y), (255, 255, 255));
            }
        }
    }
}

#[test]
fn frame_image_reports_impossible_shapes() {
    let src = sample_image(4, 4);
    let input = encode_image(&src, ImageFormat::Png).unwrap();
    assert_eq!(
        frame_image(&input, "png", Sizing::Dimensions(0, 5)),
        Err(FrameError::ResizeError)
    );
    // A ratio so wide that the canvas width cannot fit in u32.
    assert_eq!(
        frame_image(&input, "png", Sizing::AspectRatio(u64::MAX, 1)),
        Err(FrameError::ResizeError)
    );
}
