use vstd::prelude::*;

use crate::buffer::Image;
use crate::geometry::FrameError;
use vstd::string::StrSliceExecFns;

verus! {

/// The raster file formats this library reads and writes.
#[derive(Clone, Copy, Debug, PartialEq, Eq, Structural)]
pub enum ImageFormat {
    Jpeg,
    Png,
    Webp,
}

/// What decoding a buffer of the given format to 8-bit RGB returns: the
/// pixel dimensions and the row-major bytes, or nothing when the buffer does
/// not decode in that format.
pub uninterp spec fn decode_rgb8_of(bytes: Seq<u8>, format: ImageFormat) -> Option<
    (u32, u32, Seq<u8>),
>;

/// What encoding a row-major 8-bit RGB buffer of the given dimensions in the
/// given format returns: the encoded bytes, or nothing when the encoder
/// refuses the image (JPEG, for one, cannot hold a dimension above 65535).
/// The JPEG, PNG and lossless WEBP encoders are deterministic, so both
/// outcomes are a function of the arguments alone.
pub uninterp spec fn encode_result_of(data: Seq<u8>, w: int, h: int, format: ImageFormat) -> Option<
    Seq<u8>,
>;

/// What Lanczos-stretching a `sw`-by-`sh` row-major 8-bit RGB buffer to
/// `w`-by-`h` pixels returns. The resampling reads nothing but its
/// arguments; its kernel evaluates `f32::sin` through the platform's math
/// library, so the bytes are fixed on any one platform but not, strictly,
/// bit-identical across all of them.
pub uninterp spec fn resize_of(data: Seq<u8>, sw: int, sh: int, w: int, h: int) -> Seq<u8>;

/// The format announced by a buffer's leading magic bytes: PNG by its
/// eight-byte signature, JPEG by `ff d8 ff`, WEBP by `RIFF` with `WEBP` at
/// offset 8. The three signatures exclude one another and are shared by no
/// other raster format, so any other start announces no format this library
/// decodes.
pub open spec fn spec_sniffed_format(b: Seq<u8>) -> Option<ImageFormat> {
    if b.len() >= 8 && b[0] == 0x89u8 && b[1] == 0x50u8 && b[2] == 0x4eu8 && b[3] == 0x47u8 && b[4]
        == 0x0du8 && b[5] == 0x0au8 && b[6] == 0x1au8 && b[7] == 0x0au8 {
        Some(ImageFormat::Png)
    } else if b.len() >= 3 && b[0] == 0xffu8 && b[1] == 0xd8u8 && b[2] == 0xffu8 {
        Some(ImageFormat::Jpeg)
    } else if b.len() >= 12 && b[0] == 0x52u8 && b[1] == 0x49u8 && b[2] == 0x46u8 && b[3] == 0x46u8
        && b[8] == 0x57u8 && b[9] == 0x45u8 && b[10] == 0x42u8 && b[11] == 0x50u8 {
        Some(ImageFormat::Webp)
    } else {
        None
    }
}

/// The image a buffer decodes to, when its leading bytes announce a
/// supported format and the buffer decodes in that format.
pub open spec fn decoded_image_of(bytes: Seq<u8>) -> Option<(u32, u32, Seq<u8>)> {
    match spec_sniffed_format(bytes) {
        Some(f) => decode_rgb8_of(bytes, f),
        None => None,
    }
}

/// Read which supported format, if any, a buffer's magic bytes announce.
pub fn sniff_format(bytes: &Vec<u8>) -> (r: Option<ImageFormat>)
    ensures
        r == spec_sniffed_format(bytes@),
{
    let n = bytes.len();
    if n >= 8 && bytes[0] == 0x89 && bytes[1] == 0x50 && bytes[2] == 0x4e && bytes[3] == 0x47
        && bytes[4] == 0x0d && bytes[5] == 0x0a && bytes[6] == 0x1a && bytes[7] == 0x0a {
        Some(ImageFormat::Png)
    } else if n >= 3 && bytes[0] == 0xff && bytes[1] == 0xd8 && bytes[2] == 0xff {
        Some(ImageFormat::Jpeg)
    } else if n >= 12 && bytes[0] == 0x52 && bytes[1] == 0x49 && bytes[2] == 0x46 && bytes[3]
        == 0x46 && bytes[8] == 0x57 && bytes[9] == 0x45 && bytes[10] == 0x42 && bytes[11] == 0x50 {
        Some(ImageFormat::Webp)
    } else {
        None
    }
}

/// Decode a buffer of the given format into an owned 8-bit RGB image.
///
/// Relies on `image::load_from_memory_with_format` and
/// `DynamicImage::to_rgb8`: decoding and the RGB conversion (which drops any
/// alpha channel) are functions of the bytes and the format alone, and an
/// `RgbImage` holds exactly three bytes per pixel.
#[verifier::external_body]
fn decode_with_format(bytes: &Vec<u8>, format: ImageFormat) -> (r: Option<Image>)
    ensures
        match r {
            Some(img) => {
                &&& decode_rgb8_of(bytes@, format) == Some((img.width, img.height, img.data@))
                &&& img.data@.len() == 3 * img.width * img.height
            },
            None => decode_rgb8_of(bytes@, format) is None,
        },
{
    let fmt = match format {
        ImageFormat::Jpeg => image::ImageFormat::Jpeg,
        ImageFormat::Png => image::ImageFormat::Png,
        ImageFormat::Webp => image::ImageFormat::WebP,
    };
    match image::load_from_memory_with_format(bytes, fmt) {
        Ok(decoded) => {
            let rgb = decoded.to_rgb8();
            let (w, h) = (rgb.width(), rgb.height());
            Some(Image { width: w, height: h, data: rgb.into_raw() })
        },
        Err(_) => None,
    }
}

/// Encode an image in the given format.
///
/// Relies on `ImageBuffer::write_to`: it writes to an in-memory cursor, and
/// the JPEG, PNG and lossless WEBP encoders are deterministic, so the
/// outcome — the encoded bytes, or a refusal — is a function of the pixels,
/// the dimensions and the format alone. Both branches are therefore tied to
/// the one named result.
#[verifier::external_body]
fn encode_rgb(img: &Image, format: ImageFormat) -> (r: Option<Vec<u8>>)
    requires
        img.wf(),
    ensures
        match r {
            Some(b) => encode_result_of(img.data@, img.width as int, img.height as int, format)
                == Some(b@),
            None => encode_result_of(img.data@, img.width as int, img.height as int, format)
                is None,
        },
{
    let buf = image::RgbImage::from_raw(img.width, img.height, img.data.clone()).unwrap();
    let fmt = match format {
        ImageFormat::Jpeg => image::ImageFormat::Jpeg,
        ImageFormat::Png => image::ImageFormat::Png,
        ImageFormat::Webp => image::ImageFormat::WebP,
    };
    let mut out = std::io::Cursor::new(Vec::new());
    match buf.write_to(&mut out, fmt) {
        Ok(()) => Some(out.into_inner()),
        Err(_) => None,
    }
}

/// Stretch `src` to exactly `w`-by-`h` pixels, without preserving its aspect
/// ratio.
///
/// Relies on `image::imageops::resize` with `FilterType::Lanczos3`: pure
/// Lanczos resampling, a function of the source pixels and the two shapes
/// alone, returning a buffer of exactly the requested dimensions. The
/// resampling goes through an intermediate four-channel float buffer of
/// source width by target height, whose element count must not overflow
/// `usize` any more than the output's may: the last two bounds exclude the
/// overflow panics of both allocations.
#[verifier::external_body]
pub(crate) fn resize_lanczos(src: &Image, w: u32, h: u32) -> (r: Image)
    requires
        src.wf(),
        1 <= w,
        1 <= h,
        3 * w * h <= usize::MAX,
        4 * src.width * h <= usize::MAX,
    ensures
        r.width == w,
        r.height == h,
        r.data@.len() == 3 * w * h,
        r.data@ == resize_of(src.data@, src.width as int, src.height as int, w as int, h as int),
{
    let buf = image::RgbImage::from_raw(src.width, src.height, src.data.clone()).unwrap();
    let out = image::imageops::resize(&buf, w, h, image::imageops::FilterType::Lanczos3);
    Image { width: w, height: h, data: out.into_raw() }
}

/// Decode an image from its encoded bytes.
///
/// Succeeds exactly when the bytes announce a supported format (JPEG, PNG or
/// WEBP), decode correctly in it, and give an image with positive
/// dimensions; every other input is a `DecodeError`.
pub fn decode_image(bytes: &Vec<u8>) -> (r: Result<Image, FrameError>)
    ensures
        match r {
            Ok(img) => {
                &&& img.wf()
                &&& decoded_image_of(bytes@) == Some((img.width, img.height, img.data@))
            },
            Err(e) => {
                &&& e == FrameError::DecodeError
                &&& match decoded_image_of(bytes@) {
                    Some((w, h, d)) => w == 0 || h == 0,
                    None => true,
                }
            },
        },
{
    match sniff_format(bytes) {
        Some(f) => match decode_with_format(bytes, f) {
            Some(img) => {
                if img.width == 0 || img.height == 0 {
                    Err(FrameError::DecodeError)
                } else {
                    Ok(img)
                }
            },
            None => Err(FrameError::DecodeError),
        },
        None => Err(FrameError::DecodeError),
    }
}

/// Encode an image in the given format. Succeeds exactly when the encoder
/// accepts these pixels in this format, and then returns exactly its bytes;
/// `EncodeError` reports exactly an encoder refusal.
pub fn encode_image(img: &Image, format: ImageFormat) -> (r: Result<Vec<u8>, FrameError>)
    requires
        img.wf(),
    ensures
        match r {
            Ok(b) => encode_result_of(img.data@, img.width as int, img.height as int, format)
                == Some(b@),
            Err(e) => {
                &&& e == FrameError::EncodeError
                &&& encode_result_of(img.data@, img.width as int, img.height as int, format)
                    is None
            },
        },
{
    match encode_rgb(img, format) {
        Some(b) => Ok(b),
        None => Err(FrameError::EncodeError),
    }
}

/// The encoding named by a file extension: `jpg` and `jpeg` name JPEG, `png`
/// names PNG, `webp` names WEBP, anything else names none.
pub open spec fn spec_format_for_extension(s: Seq<char>) -> Option<ImageFormat> {
    if s.len() == 3 && s[0] == 'j' && s[1] == 'p' && s[2] == 'g' {
        Some(ImageFormat::Jpeg)
    } else if s.len() == 4 && s[0] == 'j' && s[1] == 'p' && s[2] == 'e' && s[3] == 'g' {
        Some(ImageFormat::Jpeg)
    } else if s.len() == 3 && s[0] == 'p' && s[1] == 'n' && s[2] == 'g' {
        Some(ImageFormat::Png)
    } else if s.len() == 4 && s[0] == 'w' && s[1] == 'e' && s[2] == 'b' && s[3] == 'p' {
        Some(ImageFormat::Webp)
    } else {
        None
    }
}

/// Map an output file extension (lower case, without the dot) to the
/// encoding it names.
pub fn format_for_extension(ext: &str) -> (r: Option<ImageFormat>)
    ensures
        r == spec_format_for_extension(ext@),
{
    let n = ext.unicode_len();
    if n == 3 {
        let c0 = ext.get_char(0);
        let c1 = ext.get_char(1);
        let c2 = ext.get_char(2);
        if c0 == 'j' && c1 == 'p' && c2 == 'g' {
            Some(ImageFormat::Jpeg)
        } else if c0 == 'p' && c1 == 'n' && c2 == 'g' {
            Some(ImageFormat::Png)
        } else {
            None
        }
    } else if n == 4 {
        let c0 = ext.get_char(0);
        let c1 = ext.get_char(1);
        let c2 = ext.get_char(2);
        let c3 = ext.get_char(3);
        if c0 == 'j' && c1 == 'p' && c2 == 'e' && c3 == 'g' {
            Some(ImageFormat::Jpeg)
        } else if c0 == 'w' && c1 == 'e' && c2 == 'b' && c3 == 'p' {
            Some(ImageFormat::Webp)
        } else {
            None
        }
    } else {
        None
    }
}

} // verus!
