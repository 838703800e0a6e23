//! The calls into the image, colour-management and compression crates, and
//! into the parts of std that vstd does not specify. Each item here is
//! trusted: its contract restates what the called code does, and nothing
//! proves it.
use vstd::prelude::*;

use image::ImageDecoder;
use std::io::Write;

verus! {

/// What zlib compression (flate2's `ZlibEncoder` at the default level)
/// produces for `data`.
pub uninterp spec fn zlib_compressed(data: Seq<u8>) -> Seq<u8>;

/// The pixel size `image::load_from_memory` decodes from `bytes`, if it
/// decodes them.
pub uninterp spec fn decoded_image_size(bytes: Seq<u8>) -> Option<(u32, u32)>;

/// The format `image::guess_format` reads from the magic bytes, if any.
pub uninterp spec fn guessed_image_kind(bytes: Seq<u8>) -> Option<ImageKind>;

/// What `image`'s PNG decoder gives for `bytes`: width, height, RGBA8
/// pixels and the embedded ICC profile.
pub uninterp spec fn png_decoded(bytes: Seq<u8>) -> Option<(u32, u32, Seq<u8>, Option<Seq<u8>>)>;

/// What `image`'s WebP decoder gives for `bytes`.
pub uninterp spec fn webp_decoded(bytes: Seq<u8>) -> Option<(u32, u32, Seq<u8>, Option<Seq<u8>>)>;

/// What `image`'s JPEG decoder reads from `bytes`, when it decodes them:
/// width, height and the embedded ICC profile.
pub uninterp spec fn jpeg_decoded(bytes: Seq<u8>) -> Option<(u32, u32, Option<Seq<u8>>)>;

/// Whether `out` is an RGBA8 raster that `image`'s JPEG decoder can give
/// for `bytes` on some machine: the decoder's SIMD paths may differ in the
/// low bits, so this names the possible outputs rather than one.
pub uninterp spec fn jpeg_pixels_decoded(bytes: Seq<u8>, out: Seq<u8>) -> bool;

/// Whether `out` is a raster that `image::imageops::resize` with Lanczos3
/// can give, on some machine, for the `width` x `height` RGBA8 raster
/// `rgba` resized to `new_width` x `new_height`.
pub uninterp spec fn lanczos3_resampled(rgba: Seq<u8>, width: u32, height: u32, new_width: u32, new_height: u32, out: Seq<u8>) -> bool;

/// Whether `out` is a raster that a moxcms 8-bit transform from the RGB
/// ICC profile `profile` to sRGB (RGBA on both sides) can give, on some
/// machine, for the RGBA8 pixels `rgba`.
pub uninterp spec fn rgb_srgb_converted(rgba: Seq<u8>, profile: Seq<u8>, out: Seq<u8>) -> bool;

/// Whether `out` is a raster that a moxcms 8-bit transform from sRGB (RGB)
/// to the CMYK ICC profile `profile` (four channels) can give, on some
/// machine, for the RGB8 pixels `rgb`.
pub uninterp spec fn srgb_cmyk_converted(rgb: Seq<u8>, profile: Seq<u8>, out: Seq<u8>) -> bool;

/// The colour space moxcms parses from an ICC profile, if it parses.
pub uninterp spec fn parsed_icc_color_space(bytes: Seq<u8>) -> Option<IccColorSpace>;

/// `str::to_uppercase`: the Unicode upper case of the text.
pub uninterp spec fn uppercase(s: Seq<char>) -> Seq<char>;

/// `String::from_utf8_lossy`: the text of the bytes, each invalid sequence
/// replaced by U+FFFD.
pub uninterp spec fn utf8_lossy(bytes: Seq<u8>) -> Seq<char>;

/// The raster formats the exporter decodes.
#[derive(Clone, Copy, Debug, PartialEq, Eq, Structural)]
pub enum ImageKind {
    Png,
    Jpeg,
    WebP,
    Unsupported,
}

/// The colour spaces the exporter distinguishes in an ICC profile.
#[derive(Clone, Copy, Debug, PartialEq, Eq, Structural)]
pub enum IccColorSpace {
    Rgb,
    Cmyk,
    Gray,
    Other,
}

/// A decoded raster: RGBA8 pixels row by row, and any embedded ICC profile.
pub struct DecodedImage {
    pub width: u32,
    pub height: u32,
    pub rgba: Vec<u8>,
    pub icc_profile: Option<Vec<u8>>,
}

/// The step at which decoding failed, with the decoder's message.
pub enum DecodeFailure {
    Open(String),
    Profile(String),
    Pixels(String),
}

/// The step at which a colour transform failed, with moxcms's message.
pub enum CmsFailure {
    Parse(String),
    Create(String),
    Convert(String),
}

/// The step at which compression failed, with flate2's message.
pub enum ZlibFailure {
    Write(String),
    Finish(String),
}

/// Compresses with flate2's `ZlibEncoder` (default level) into a vector:
/// `write_all` of the bytes, then `finish`. Both succeed: writing into a
/// `Vec` cannot fail, and flate2 reports an error only for a corrupt
/// deflate state, which its own encoder never reaches. The bytes are what
/// the encoder produces for the input.
#[verifier::external_body]
pub(crate) fn zlib_encode(bytes: &[u8]) -> (res: Result<Vec<u8>, ZlibFailure>)
    ensures
        res is Ok,
        res->Ok_0@ == zlib_compressed(bytes@),
{
    let mut encoder = flate2::write::ZlibEncoder::new(Vec::new(), flate2::Compression::default());
    if let Err(e) = encoder.write_all(bytes) {
        return Err(ZlibFailure::Write(e.to_string()));
    }
    match encoder.finish() {
        Ok(v) => Ok(v),
        Err(e) => Err(ZlibFailure::Finish(e.to_string())),
    }
}

/// `image::load_from_memory`: whether the bytes decode, and the decoded
/// width and height when they do; the error text is left unstated.
#[verifier::external_body]
pub(crate) fn load_image_size(bytes: &[u8]) -> (res: Result<(u32, u32), String>)
    ensures
        match res {
            Ok(size) => decoded_image_size(bytes@) == Some(size),
            Err(_) => decoded_image_size(bytes@) is None,
        },
{
    match image::load_from_memory(bytes) {
        Ok(img) => Ok((img.width(), img.height())),
        Err(e) => Err(e.to_string()),
    }
}

/// `image::guess_format`: the format its magic-byte table reads from the
/// bytes (PNG, JPEG, WebP, or any other as unsupported), with the format's
/// `Debug` name for messages; the contract leaves the name unstated.
#[verifier::external_body]
pub(crate) fn guess_image_kind(bytes: &[u8]) -> (res: Result<(ImageKind, String), String>)
    ensures
        match res {
            Ok((kind, _)) => guessed_image_kind(bytes@) == Some(kind),
            Err(_) => guessed_image_kind(bytes@) is None,
        },
{
    match image::guess_format(bytes) {
        Ok(image::ImageFormat::Png) => Ok((ImageKind::Png, String::from("Png"))),
        Ok(image::ImageFormat::Jpeg) => Ok((ImageKind::Jpeg, String::from("Jpeg"))),
        Ok(image::ImageFormat::WebP) => Ok((ImageKind::WebP, String::from("WebP"))),
        Ok(other) => Ok((ImageKind::Unsupported, format!("{other:?}"))),
        Err(e) => Err(e.to_string()),
    }
}

/// Decodes a PNG with `image`'s `PngDecoder`: its ICC profile, then its
/// pixels as RGBA8 (`DynamicImage::to_rgba8`, four bytes per pixel).
#[verifier::external_body]
pub(crate) fn decode_png(bytes: &[u8]) -> (res: Result<DecodedImage, DecodeFailure>)
    ensures
        match res {
            Ok(d) => png_decoded(bytes@) == Some((d.width, d.height, d.rgba@, opt_bytes(d.icc_profile)))
                && d.rgba@.len() == d.width * d.height * 4,
            Err(_) => png_decoded(bytes@) is None,
        },
{
    let mut d = image::codecs::png::PngDecoder::new(std::io::Cursor::new(bytes))
        .map_err(|e| DecodeFailure::Open(e.to_string()))?;
    let icc = d.icc_profile().map_err(|e| DecodeFailure::Profile(e.to_string()))?;
    let img = image::DynamicImage::from_decoder(d).map_err(|e| DecodeFailure::Pixels(e.to_string()))?;
    let rgba = img.to_rgba8();
    Ok(DecodedImage { width: rgba.width(), height: rgba.height(), rgba: rgba.into_raw(), icc_profile: icc })
}

/// Decodes a WebP with `image`'s `WebPDecoder`, as `decode_png` does a PNG.
#[verifier::external_body]
pub(crate) fn decode_webp(bytes: &[u8]) -> (res: Result<DecodedImage, DecodeFailure>)
    ensures
        match res {
            Ok(d) => webp_decoded(bytes@) == Some((d.width, d.height, d.rgba@, opt_bytes(d.icc_profile)))
                && d.rgba@.len() == d.width * d.height * 4,
            Err(_) => webp_decoded(bytes@) is None,
        },
{
    let mut d = image::codecs::webp::WebPDecoder::new(std::io::Cursor::new(bytes))
        .map_err(|e| DecodeFailure::Open(e.to_string()))?;
    let icc = d.icc_profile().map_err(|e| DecodeFailure::Profile(e.to_string()))?;
    let img = image::DynamicImage::from_decoder(d).map_err(|e| DecodeFailure::Pixels(e.to_string()))?;
    let rgba = img.to_rgba8();
    Ok(DecodedImage { width: rgba.width(), height: rgba.height(), rgba: rgba.into_raw(), icc_profile: icc })
}

/// Decodes a JPEG with `image`'s `JpegDecoder`, as `decode_png` does a PNG.
/// Whether it decodes, its size and its ICC profile are the decoder's; the
/// pixels are one of the rasters the decoder can give for the bytes (it
/// picks SIMD paths by the CPU it runs on). The buffer holds four bytes per
/// pixel.
#[verifier::external_body]
pub(crate) fn decode_jpeg(bytes: &[u8]) -> (res: Result<DecodedImage, DecodeFailure>)
    ensures
        match res {
            Ok(d) => jpeg_decoded(bytes@) == Some((d.width, d.height, opt_bytes(d.icc_profile)))
                && d.rgba@.len() == d.width * d.height * 4 && jpeg_pixels_decoded(bytes@, d.rgba@),
            Err(_) => jpeg_decoded(bytes@) is None,
        },
{
    let mut d = image::codecs::jpeg::JpegDecoder::new(std::io::Cursor::new(bytes))
        .map_err(|e| DecodeFailure::Open(e.to_string()))?;
    let icc = d.icc_profile().map_err(|e| DecodeFailure::Profile(e.to_string()))?;
    let img = image::DynamicImage::from_decoder(d).map_err(|e| DecodeFailure::Pixels(e.to_string()))?;
    let rgba = img.to_rgba8();
    Ok(DecodedImage { width: rgba.width(), height: rgba.height(), rgba: rgba.into_raw(), icc_profile: icc })
}

/// The bytes of an optional buffer.
pub open spec fn opt_bytes(o: Option<Vec<u8>>) -> Option<Seq<u8>> {
    match o {
        Some(v) => Some(v@),
        None => None,
    }
}

/// `image::imageops::resize` with `FilterType::Lanczos3` on an RGBA8
/// raster (`RgbaImage::from_raw` accepts a buffer of at least
/// `width * height * 4` bytes). The resize first samples vertically into a
/// `width` x `new_height` buffer of four `f32` channels, then horizontally
/// into the `new_width` x `new_height` RGBA8 result; both buffers must be
/// allocatable. The result holds four bytes per pixel; at the raster's own
/// size `resize` copies the pixels instead of resampling them. The result
/// is one of the rasters the resize can give for these arguments: the
/// Lanczos kernel is computed with `f32::sin`, whose precision std leaves
/// to the platform, so the values are not pinned to one.
#[verifier::external_body]
pub(crate) fn resize_lanczos3(rgba: &[u8], width: u32, height: u32, new_width: u32, new_height: u32) -> (out: Vec<u8>)
    requires
        rgba@.len() >= width * height * 4,
        width * new_height * 16 <= isize::MAX,
        new_width * new_height * 4 <= isize::MAX,
    ensures
        out@.len() == new_width * new_height * 4,
        lanczos3_resampled(rgba@, width, height, new_width, new_height, out@),
        new_width == width && new_height == height ==> out@ == rgba@.subrange(0, width * height * 4),
{
    let source = image::RgbaImage::from_raw(width, height, rgba.to_vec()).unwrap();
    let resized = image::imageops::resize(&source, new_width, new_height, image::imageops::FilterType::Lanczos3);
    resized.into_raw()
}

/// Parses an ICC profile with `moxcms::ColorProfile::new_from_slice` and
/// reads its data colour space, with the space's `Debug` name for messages;
/// the contract leaves the name and the error text unstated.
#[verifier::external_body]
pub(crate) fn icc_color_space(bytes: &[u8]) -> (res: Result<(IccColorSpace, String), String>)
    ensures
        match res {
            Ok((space, _)) => parsed_icc_color_space(bytes@) == Some(space),
            Err(_) => parsed_icc_color_space(bytes@) is None,
        },
{
    let profile = moxcms::ColorProfile::new_from_slice(bytes).map_err(|e| e.to_string())?;
    let name = format!("{:?}", profile.color_space);
    match profile.color_space {
        moxcms::DataColorSpace::Rgb => Ok((IccColorSpace::Rgb, name)),
        moxcms::DataColorSpace::Cmyk => Ok((IccColorSpace::Cmyk, name)),
        moxcms::DataColorSpace::Gray => Ok((IccColorSpace::Gray, name)),
        _ => Ok((IccColorSpace::Other, name)),
    }
}

/// Converts RGBA8 pixels from the given RGB ICC profile to sRGB with a
/// moxcms 8-bit transform (RGBA layout on both sides). The profile is
/// parsed first, as `icc_color_space` parses it, so the parse step fails
/// exactly when that one does. Whether the transform can be created and
/// run is left unstated; the output has the input's length and is one of
/// the rasters the transform can give for these pixels and this profile
/// (moxcms picks SIMD paths by the CPU it runs on).
#[verifier::external_body]
pub(crate) fn convert_rgba_to_srgb(rgba: &[u8], source_icc: &[u8]) -> (res: Result<Vec<u8>, CmsFailure>)
    ensures
        res matches Ok(v) ==> v@.len() == rgba@.len() && rgb_srgb_converted(rgba@, source_icc@, v@),
        (res matches Err(CmsFailure::Parse(_))) == (parsed_icc_color_space(source_icc@) is None),
{
    let source = moxcms::ColorProfile::new_from_slice(source_icc).map_err(|e| CmsFailure::Parse(e.to_string()))?;
    let transform = source
        .create_transform_8bit(moxcms::Layout::Rgba, &moxcms::ColorProfile::new_srgb(), moxcms::Layout::Rgba, moxcms::TransformOptions::default())
        .map_err(|e| CmsFailure::Create(e.to_string()))?;
    let mut converted = vec![0u8; rgba.len()];
    transform.transform(rgba, &mut converted).map_err(|e| CmsFailure::Convert(e.to_string()))?;
    Ok(converted)
}

/// Converts RGB8 sRGB pixels to the CMYK of the given ICC profile with a
/// moxcms 8-bit transform (RGB in, four channels out) into a buffer of
/// `out_len` bytes, four per input pixel. As for `convert_rgba_to_srgb`,
/// the parse step fails exactly when `icc_color_space` does, and the output
/// has that length and is one of the rasters the transform can give for
/// these pixels and this profile.
#[verifier::external_body]
pub(crate) fn convert_srgb_to_cmyk(rgb: &[u8], target_icc: &[u8], out_len: usize) -> (res: Result<Vec<u8>, CmsFailure>)
    requires
        rgb@.len() % 3 == 0,
        out_len == rgb@.len() / 3 * 4,
        out_len <= isize::MAX,
    ensures
        res matches Ok(v) ==> v@.len() == out_len && srgb_cmyk_converted(rgb@, target_icc@, v@),
        (res matches Err(CmsFailure::Parse(_))) == (parsed_icc_color_space(target_icc@) is None),
{
    let target = moxcms::ColorProfile::new_from_slice(target_icc).map_err(|e| CmsFailure::Parse(e.to_string()))?;
    let transform = moxcms::ColorProfile::new_srgb()
        .create_transform_8bit(moxcms::Layout::Rgb, &target, moxcms::Layout::Rgba, moxcms::TransformOptions::default())
        .map_err(|e| CmsFailure::Create(e.to_string()))?;
    let mut cmyk = vec![0u8; out_len];
    transform.transform(rgb, &mut cmyk).map_err(|e| CmsFailure::Convert(e.to_string()))?;
    Ok(cmyk)
}

/// `str::to_uppercase`.
#[verifier::external_body]
pub(crate) fn to_uppercase(s: &str) -> (out: String)
    ensures
        out@ == uppercase(s@),
{
    s.to_uppercase()
}

/// `String::from_utf8_lossy`, owned: bytes that are valid UTF-8 give the
/// text they encode; others have each invalid sequence replaced by U+FFFD.
#[verifier::external_body]
pub(crate) fn from_utf8_lossy(bytes: &[u8]) -> (out: String)
    ensures
        out@ == utf8_lossy(bytes@),
        vstd::utf8::valid_utf8(bytes@) ==> out@ == vstd::utf8::decode_utf8(bytes@),
{
    String::from_utf8_lossy(bytes).into_owned()
}

} // verus!
