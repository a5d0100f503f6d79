//! Lossless PNG encoding and decoding of depth-camera frames.
//!
//! Color frames are stored as 8-bit RGB PNG, depth frames as 16-bit
//! grayscale PNG.  The encoders and decoders are the image crate's; their
//! results are named here, and the encode/decode round trip is verified
//! against those names.  PNG dimensions are capped at `0x7fffffff`, so
//! encoding is owed to succeed exactly on non-empty frames under that cap.

use vstd::prelude::*;
use crate::errors::AppError;
use crate::frames::{rs_color_wf, rs_depth_wf, RsColorFrameData, RsDepthFrameData};

verus! {

/// The PNG encoding of an RGB8 pixel buffer, as the image crate's PNG
/// encoder produces it.  A function of the pixels and dimensions alone.
pub uninterp spec fn png_of_rgb8(data: Seq<u8>, width: u32, height: u32) -> Seq<u8>;

/// The PNG encoding of a 16-bit grayscale pixel buffer, as the image
/// crate's PNG encoder produces it.  A function of the pixels and
/// dimensions alone.
pub uninterp spec fn png_of_luma16(data: Seq<u16>, width: u32, height: u32) -> Seq<u8>;

/// Both dimensions are positive and within PNG's `0x7fffffff` cap, so the
/// encoder accepts them.
pub open spec fn png_dims_ok(width: u32, height: u32) -> bool {
    &&& 0 < width < 0x80000000
    &&& 0 < height < 0x80000000
}

/// Relies on the image crate's PNG encoder (`DynamicImage::write_to` with
/// `ImageFormat::Png`): encodes an RGB8 buffer deterministically.  With an
/// exact-length buffer, `ImageBuffer::from_raw` accepts it, and the
/// encoder refuses only a zero or over-cap dimension, so encoding
/// succeeds whenever the dimensions are acceptable.
#[verifier::external_body]
fn encode_rgb8_png(data: &Vec<u8>, width: u32, height: u32) -> (r: Option<Vec<u8>>)
    requires
        data@.len() == 3 * (width as int) * (height as int),
    ensures
        r matches Some(b) ==> b@ == png_of_rgb8(data@, width, height),
        png_dims_ok(width, height) ==> r is Some,
        r is Some ==> 0 < width && 0 < height,
{
    let buf = match image::RgbImage::from_raw(width, height, data.clone()) {
        Some(b) => b,
        None => return None,
    };
    let mut out = std::io::Cursor::new(Vec::new());
    match image::DynamicImage::ImageRgb8(buf).write_to(&mut out, image::ImageFormat::Png) {
        Ok(()) => Some(out.into_inner()),
        Err(_) => None,
    }
}

/// Relies on the image crate's PNG decoder (`ImageReader` with the
/// allocation limits disabled): PNG stores RGB8 losslessly, so decoding
/// a buffer the encoder produced for acceptable dimensions returns
/// exactly the encoded pixels and dimensions.  (The decoder rejects
/// zero dimensions, hence the guard on the encodings spoken for.)
#[verifier::external_body]
fn decode_rgb8_png(bytes: &Vec<u8>) -> (r: Option<(Vec<u8>, u32, u32)>)
    ensures
        r is Some <== exists|d: Seq<u8>, w: u32, h: u32|
            png_dims_ok(w, h) && d.len() == 3 * (w as int) * (h as int) && bytes@
                == #[trigger] png_of_rgb8(d, w, h),
        r matches Some(t) ==> forall|d: Seq<u8>, w: u32, h: u32|
            (png_dims_ok(w, h) && d.len() == 3 * (w as int) * (h as int) && bytes@
                == #[trigger] png_of_rgb8(d, w, h)) ==> (t.0@ == d && t.1 == w && t.2 == h),
{
    let mut reader = image::ImageReader::new(std::io::Cursor::new(bytes.as_slice()));
    reader.set_format(image::ImageFormat::Png);
    reader.no_limits();
    match reader.decode() {
        Ok(img) => {
            let rgb = img.to_rgb8();
            let (w, h) = rgb.dimensions();
            Some((rgb.into_raw(), w, h))
        },
        Err(_) => None,
    }
}

/// Relies on the image crate's PNG encoder: encodes a 16-bit grayscale
/// buffer deterministically (big-endian sample order in the file).  With
/// an exact-length buffer the encoder refuses only a zero or over-cap
/// dimension, so encoding succeeds whenever the dimensions are
/// acceptable.
#[verifier::external_body]
fn encode_luma16_png(data: &Vec<u16>, width: u32, height: u32) -> (r: Option<Vec<u8>>)
    requires
        data@.len() == (width as int) * (height as int),
    ensures
        r matches Some(b) ==> b@ == png_of_luma16(data@, width, height),
        png_dims_ok(width, height) ==> r is Some,
        r is Some ==> 0 < width && 0 < height,
{
    let buf = match image::ImageBuffer::<image::Luma<u16>, Vec<u16>>::from_raw(
        width,
        height,
        data.clone(),
    ) {
        Some(b) => b,
        None => return None,
    };
    let mut out = std::io::Cursor::new(Vec::new());
    match image::DynamicImage::ImageLuma16(buf).write_to(&mut out, image::ImageFormat::Png) {
        Ok(()) => Some(out.into_inner()),
        Err(_) => None,
    }
}

/// Relies on the image crate's PNG decoder (`ImageReader` with the
/// allocation limits disabled): PNG stores 16-bit grayscale losslessly,
/// so decoding a buffer the encoder produced for acceptable dimensions
/// returns exactly the encoded values and dimensions.  (The decoder
/// rejects zero dimensions, hence the guard on the encodings spoken
/// for.)
#[verifier::external_body]
fn decode_luma16_png(bytes: &Vec<u8>) -> (r: Option<(Vec<u16>, u32, u32)>)
    ensures
        r is Some <== exists|d: Seq<u16>, w: u32, h: u32|
            png_dims_ok(w, h) && d.len() == (w as int) * (h as int) && bytes@
                == #[trigger] png_of_luma16(d, w, h),
        r matches Some(t) ==> forall|d: Seq<u16>, w: u32, h: u32|
            (png_dims_ok(w, h) && d.len() == (w as int) * (h as int) && bytes@
                == #[trigger] png_of_luma16(d, w, h)) ==> (t.0@ == d && t.1 == w && t.2 == h),
{
    let mut reader = image::ImageReader::new(std::io::Cursor::new(bytes.as_slice()));
    reader.set_format(image::ImageFormat::Png);
    reader.no_limits();
    match reader.decode() {
        Ok(img) => {
            let gray = img.to_luma16();
            let (w, h) = gray.dimensions();
            Some((gray.into_raw(), w, h))
        },
        Err(_) => None,
    }
}

/// Encodes a color frame as lossless RGB8 PNG.  Succeeds on every frame
/// whose dimensions the PNG format accepts; encoding a degenerate frame
/// (a zero or over-cap dimension) is a media error.
pub fn encode_color_frame(f: &RsColorFrameData) -> (r: Result<Vec<u8>, AppError>)
    requires
        rs_color_wf(*f),
    ensures
        r matches Ok(b) ==> b@ == png_of_rgb8(f.rgb_data@, f.width, f.height),
        png_dims_ok(f.width, f.height) ==> r is Ok,
        r matches Err(e) ==> e is Media,
{
    match encode_rgb8_png(&f.rgb_data, f.width, f.height) {
        Some(b) => Ok(b),
        None => Err(AppError::Media("PNG encoding of the color frame failed".to_owned())),
    }
}

/// Encodes a depth frame as lossless 16-bit grayscale PNG.  Succeeds on
/// every frame whose dimensions the PNG format accepts.
pub fn encode_depth_frame(f: &RsDepthFrameData) -> (r: Result<Vec<u8>, AppError>)
    requires
        rs_depth_wf(*f),
    ensures
        r matches Ok(b) ==> b@ == png_of_luma16(f.depth_data@, f.width, f.height),
        png_dims_ok(f.width, f.height) ==> r is Ok,
        r matches Err(e) ==> e is Media,
{
    match encode_luma16_png(&f.depth_data, f.width, f.height) {
        Some(b) => Ok(b),
        None => Err(AppError::Media("PNG encoding of the depth frame failed".to_owned())),
    }
}

/// Decodes an RGB8 PNG back into pixels.  Any buffer the encoder
/// produced for acceptable dimensions decodes, to exactly the encoded
/// pixels.
pub fn decode_color_png(bytes: &Vec<u8>) -> (r: Option<(Vec<u8>, u32, u32)>)
    ensures
        r is Some <== exists|d: Seq<u8>, w: u32, h: u32|
            png_dims_ok(w, h) && d.len() == 3 * (w as int) * (h as int) && bytes@
                == #[trigger] png_of_rgb8(d, w, h),
        r matches Some(t) ==> forall|d: Seq<u8>, w: u32, h: u32|
            (png_dims_ok(w, h) && d.len() == 3 * (w as int) * (h as int) && bytes@
                == #[trigger] png_of_rgb8(d, w, h)) ==> (t.0@ == d && t.1 == w && t.2 == h),
{
    decode_rgb8_png(bytes)
}

/// Decodes a 16-bit grayscale PNG back into values.  Any buffer the
/// encoder produced for acceptable dimensions decodes, to exactly the
/// encoded values.
pub fn decode_depth_png(bytes: &Vec<u8>) -> (r: Option<(Vec<u16>, u32, u32)>)
    ensures
        r is Some <== exists|d: Seq<u16>, w: u32, h: u32|
            png_dims_ok(w, h) && d.len() == (w as int) * (h as int) && bytes@
                == #[trigger] png_of_luma16(d, w, h),
        r matches Some(t) ==> forall|d: Seq<u16>, w: u32, h: u32|
            (png_dims_ok(w, h) && d.len() == (w as int) * (h as int) && bytes@
                == #[trigger] png_of_luma16(d, w, h)) ==> (t.0@ == d && t.1 == w && t.2 == h),
{
    decode_luma16_png(bytes)
}

/// A color frame encoded to PNG and decoded again yields pixel-identical
/// RGB8 values: on every frame with acceptable dimensions the round trip
/// completes, and whatever it returns equals the original pixels and
/// dimensions.
pub fn color_png_round_trip(f: &RsColorFrameData) -> (r: Option<(Vec<u8>, u32, u32)>)
    requires
        rs_color_wf(*f),
    ensures
        png_dims_ok(f.width, f.height) ==> r is Some,
        r matches Some(t) ==> (t.0@ == f.rgb_data@ && t.1 == f.width && t.2 == f.height),
{
    if !(0 < f.width && f.width < 0x80000000 && 0 < f.height && f.height < 0x80000000) {
        return None;
    }
    match encode_rgb8_png(&f.rgb_data, f.width, f.height) {
        Some(b) => {
            let d = decode_rgb8_png(&b);
            proof {
                assert(b@ == png_of_rgb8(f.rgb_data@, f.width, f.height));
            }
            assert(d matches Some(t) && t.0@ == f.rgb_data@ && t.1 == f.width && t.2 == f.height);
            d
        },
        None => None,
    }
}

/// A depth frame encoded to PNG and decoded again yields pixel-identical
/// Z16 values: on every frame with acceptable dimensions the round trip
/// completes, and whatever it returns equals the original values and
/// dimensions.  The depth unit travels beside the pixels (see
/// `RsDepthFrameData`), so it is preserved independently of the encoding.
pub fn depth_png_round_trip(f: &RsDepthFrameData) -> (r: Option<(Vec<u16>, u32, u32)>)
    requires
        rs_depth_wf(*f),
    ensures
        png_dims_ok(f.width, f.height) ==> r is Some,
        r matches Some(t) ==> (t.0@ == f.depth_data@ && t.1 == f.width && t.2 == f.height),
{
    if !(0 < f.width && f.width < 0x80000000 && 0 < f.height && f.height < 0x80000000) {
        return None;
    }
    match encode_luma16_png(&f.depth_data, f.width, f.height) {
        Some(b) => {
            let d = decode_luma16_png(&b);
            proof {
                assert(b@ == png_of_luma16(f.depth_data@, f.width, f.height));
            }
            assert(d matches Some(t) && t.0@ == f.depth_data@ && t.1 == f.width && t.2 == f.height);
            d
        },
        None => None,
    }
}

} // verus!
