//! The plant-ready export: decoding each slot's artwork, validating the
//! job, rendering and converting the page, writing the PDF/X file and
//! refusing it when its own preflight fails.
use crate::codec::{
    convert_rgba_to_srgb, convert_srgb_to_cmyk, decode_jpeg, decode_png, decode_webp,
    decoded_image_size, guess_image_kind, guessed_image_kind, icc_color_space, jpeg_decoded, load_image_size,
    jpeg_pixels_decoded, opt_bytes, parsed_icc_color_space, png_decoded, rgb_srgb_converted, srgb_cmyk_converted,
    webp_decoded, CmsFailure, DecodeFailure,
    DecodedImage, IccColorSpace, ImageKind,
};
use crate::codec::zlib_compressed;
use crate::model::{
    validation_message, ArtworkInfo, PlantPrepressArtworkBytes, PlantPrepressExportError, PlantPrepressJob,
    PlantPrepressPdf, PlantPrepressPlan, PlantPrepressPreflightReport, PlantPrepressPreflightStatus,
};
use crate::plan::{build_prepress_plan, plan_matches, spec_plan_issues};
use crate::preflight::{build_preflight_report, check_model, report_model, spec_preflight_checks, CheckModel};
use crate::raster::{
    rasterize_prepress_page, raster_refusal, rendered_page, rgb_to_grayscale, spec_rgb_to_grayscale, DecodedArtwork,
};
use crate::text::{chars_eq_str, chars_of, lemma_starts_with_concat, push_str, starts_with, string_from_chars};
use crate::writers::{opt_slice, prepress_content, spec_prepress_pdf, write_prepress_pdf};
use vstd::utf8::encode_utf8;
use vstd::prelude::*;

verus! {

/// An error whose message is `prefix` followed by the outside code's words.
fn failure(prefix: Vec<char>, detail: &str) -> (e: PlantPrepressExportError)
    ensures
        e.spec_message() == prefix@ + detail@,
        starts_with(e.spec_message(), prefix@),
{
    let mut m = prefix;
    let ghost p = m@;
    push_str(&mut m, detail);
    proof {
        lemma_starts_with_concat(p, detail@);
    }
    PlantPrepressExportError::new(string_from_chars(m.as_slice()))
}

fn slot_prefix(before: &str, slot_id: &str, after: &str) -> (out: Vec<char>)
    ensures
        out@ == before@ + slot_id@ + after@,
{
    let mut m = chars_of(before);
    push_str(&mut m, slot_id);
    push_str(&mut m, after);
    m
}

/// The pixel size of an encoded artwork, read by decoding it.
pub fn artwork_info_from_bytes(slot_id: String, bytes: &[u8]) -> (res: Result<ArtworkInfo, PlantPrepressExportError>)
    ensures
        match decoded_image_size(bytes@) {
            Some((w, h)) => res matches Ok(info) && info.slot_id == slot_id && info.width_px == w
                && info.height_px == h,
            None => res matches Err(e) && starts_with(e.spec_message(), "failed to decode artwork: "@),
        },
{
    match load_image_size(bytes) {
        Ok((w, h)) => Ok(ArtworkInfo { slot_id, width_px: w, height_px: h }),
        Err(detail) => Err(failure(chars_of("failed to decode artwork: "), detail.as_str())),
    }
}

/// The name a format goes by in messages.
pub open spec fn kind_name(kind: ImageKind) -> Seq<char> {
    match kind {
        ImageKind::Png => "PNG"@,
        ImageKind::Jpeg => "JPEG"@,
        ImageKind::WebP => "WebP"@,
        ImageKind::Unsupported => "unsupported"@,
    }
}

/// What the decoder of the file's format reads from it: width, height and
/// embedded ICC profile; `None` when the format is undetected or
/// unsupported, or the decoder refuses the file.
pub open spec fn artwork_header(bytes: Seq<u8>) -> Option<(u32, u32, Option<Seq<u8>>)> {
    match guessed_image_kind(bytes) {
        Some(ImageKind::Png) => match png_decoded(bytes) {
            Some((w, h, _px, icc)) => Some((w, h, icc)),
            None => None,
        },
        Some(ImageKind::WebP) => match webp_decoded(bytes) {
            Some((w, h, _px, icc)) => Some((w, h, icc)),
            None => None,
        },
        Some(ImageKind::Jpeg) => jpeg_decoded(bytes),
        _ => None,
    }
}

/// Whether `px` is an RGBA8 raster the decoder of the file's format gives
/// for it: for PNG and WebP, the decoder's pixels; for JPEG, one of the
/// rasters its decoder can give.
pub open spec fn decoder_pixels(bytes: Seq<u8>, px: Seq<u8>) -> bool {
    match guessed_image_kind(bytes) {
        Some(ImageKind::Png) => png_decoded(bytes) matches Some((_w, _h, p, _icc)) && px == p,
        Some(ImageKind::WebP) => webp_decoded(bytes) matches Some((_w, _h, p, _icc)) && px == p,
        Some(ImageKind::Jpeg) => jpeg_pixels_decoded(bytes, px),
        _ => false,
    }
}

/// The message of a failed decode of a `kind` artwork for a slot.
pub open spec fn decode_failure(kind: Seq<char>, slot_id: Seq<char>, message: Seq<char>) -> bool {
    starts_with(message, "failed to decode "@ + kind + " artwork slot "@ + slot_id + ": "@)
        || starts_with(message, "failed to read "@ + kind + " ICC profile for slot "@ + slot_id + ": "@)
}

fn decode_error(kind: &str, slot_id: &str, failed: DecodeFailure) -> (e: PlantPrepressExportError)
    ensures
        decode_failure(kind@, slot_id@, e.spec_message()),
{
    match failed {
        DecodeFailure::Open(d) => {
            let mut p = slot_prefix("failed to decode ", kind, " artwork slot ");
            push_str(&mut p, slot_id);
            push_str(&mut p, ": ");
            failure(p, d.as_str())
        },
        DecodeFailure::Pixels(d) => {
            let mut p = slot_prefix("failed to decode ", kind, " artwork slot ");
            push_str(&mut p, slot_id);
            push_str(&mut p, ": ");
            failure(p, d.as_str())
        },
        DecodeFailure::Profile(d) => {
            let mut p = slot_prefix("failed to read ", kind, " ICC profile for slot ");
            push_str(&mut p, slot_id);
            push_str(&mut p, ": ");
            failure(p, d.as_str())
        },
    }
}

/// Decodes a slot's artwork by its magic bytes (PNG, JPEG or WebP) to RGBA8
/// pixels, with the ICC profile it embeds: the size, profile and pixels its
/// format's decoder gives (for JPEG, pixels the decoder can give, its SIMD
/// paths depending on the machine). A file whose format is not
/// detected or not supported, or that its decoder refuses, is refused with
/// a message naming the slot.
pub fn decode_artwork_rgba(slot_id: &str, bytes: &[u8]) -> (res: Result<DecodedImage, PlantPrepressExportError>)
    ensures
        res matches Ok(d) ==> d.rgba@.len() == d.width * d.height * 4 && artwork_header(bytes@) == Some(
            (d.width, d.height, opt_bytes(d.icc_profile)),
        ) && decoder_pixels(bytes@, d.rgba@),
        match guessed_image_kind(bytes@) {
            None => (res matches Err(e) && starts_with(
                e.spec_message(),
                "failed to detect artwork format for slot "@ + slot_id@ + ": "@,
            )),
            Some(ImageKind::Unsupported) => (res matches Err(e) && starts_with(
                e.spec_message(),
                "unsupported artwork format for slot "@ + slot_id@ + ": "@,
            )),
            Some(kind) => match artwork_header(bytes@) {
                Some(_) => res is Ok,
                None => (res matches Err(e) && decode_failure(kind_name(kind), slot_id@, e.spec_message())),
            },
        },
{
    let (kind, name) = match guess_image_kind(bytes) {
        Ok(k) => k,
        Err(d) => return Err(failure(slot_prefix("failed to detect artwork format for slot ", slot_id, ": "), d.as_str())),
    };
    proof {
        reveal_strlit("PNG");
        reveal_strlit("JPEG");
        reveal_strlit("WebP");
    }
    match kind {
        ImageKind::Png => match decode_png(bytes) {
            Ok(img) => Ok(img),
            Err(f) => Err(decode_error("PNG", slot_id, f)),
        },
        ImageKind::Jpeg => match decode_jpeg(bytes) {
            Ok(img) => Ok(img),
            Err(f) => Err(decode_error("JPEG", slot_id, f)),
        },
        ImageKind::WebP => match decode_webp(bytes) {
            Ok(img) => Ok(img),
            Err(f) => Err(decode_error("WebP", slot_id, f)),
        },
        ImageKind::Unsupported => Err(failure(slot_prefix("unsupported artwork format for slot ", slot_id, ": "), name.as_str())),
    }
}

/// The message of a refused conversion of a slot's pixels from the profile
/// its file embeds, by what moxcms parses from the profile: a profile that
/// does not parse, one that is not RGB, or, for an RGB one, a transform
/// moxcms could not create or run.
pub open spec fn profile_refusal(slot_id: Seq<char>, profile: Seq<u8>, message: Seq<char>) -> bool {
    match parsed_icc_color_space(profile) {
        None => starts_with(message, "failed to parse source RGB ICC profile for slot "@ + slot_id + ": "@),
        Some(IccColorSpace::Rgb) => starts_with(
            message,
            "failed to create source RGB transform for slot "@ + slot_id + ": "@,
        ) || starts_with(message, "failed to convert source RGB profile for slot "@ + slot_id + ": "@),
        Some(_) => starts_with(message, "source ICC profile for slot "@ + slot_id + " must be RGB, got "@),
    }
}

/// Converts a slot's RGBA8 pixels from the RGB ICC profile its file embeds
/// to sRGB, in place. A profile that does not parse, or that is not RGB, is
/// refused; the converted values are moxcms's and are left unstated. On
/// failure the pixels are left as they were.
pub fn normalize_rgba_to_srgb(slot_id: &str, rgba: &mut Vec<u8>, source_icc_profile: &[u8]) -> (res: Result<(), PlantPrepressExportError>)
    ensures
        match res {
            Ok(()) => final(rgba)@.len() == old(rgba)@.len() && parsed_icc_color_space(source_icc_profile@)
                == Some(IccColorSpace::Rgb) && rgb_srgb_converted(old(rgba)@, source_icc_profile@, final(rgba)@),
            Err(e) => *final(rgba) == *old(rgba) && profile_refusal(slot_id@, source_icc_profile@, e.spec_message()),
        },
{
    let (space, name) = match icc_color_space(source_icc_profile) {
        Ok(v) => v,
        Err(d) => return Err(failure(slot_prefix("failed to parse source RGB ICC profile for slot ", slot_id, ": "), d.as_str())),
    };
    if space != IccColorSpace::Rgb {
        return Err(failure(slot_prefix("source ICC profile for slot ", slot_id, " must be RGB, got "), name.as_str()));
    }
    match convert_rgba_to_srgb(rgba.as_slice(), source_icc_profile) {
        Ok(converted) => {
            *rgba = converted;
            Ok(())
        },
        Err(CmsFailure::Parse(d)) => Err(failure(slot_prefix("failed to parse source RGB ICC profile for slot ", slot_id, ": "), d.as_str())),
        Err(CmsFailure::Create(d)) => Err(failure(slot_prefix("failed to create source RGB transform for slot ", slot_id, ": "), d.as_str())),
        Err(CmsFailure::Convert(d)) => Err(failure(slot_prefix("failed to convert source RGB profile for slot ", slot_id, ": "), d.as_str())),
    }
}

/// Whether an embedded profile is absent or empty.
pub open spec fn no_profile(icc: Option<Seq<u8>>) -> bool {
    icc is None || icc->0.len() == 0
}

/// What holds of an artwork decoded from `bytes`: the size its decoder
/// reads, four bytes per pixel, and the decoder's pixels: as they are for a
/// file that embeds no profile, else converted to sRGB from the profile it
/// embeds.
pub open spec fn decoded_from(bytes: Seq<u8>, art: DecodedArtwork) -> bool {
    &&& art.rgba@.len() == art.width * art.height * 4
    &&& artwork_header(bytes) matches Some((w, h, icc)) && art.width == w && art.height == h && if no_profile(icc) {
        decoder_pixels(bytes, art.rgba@)
    } else {
        exists|px: Seq<u8>|
            #![trigger rgb_srgb_converted(px, icc->0, art.rgba@)]
            decoder_pixels(bytes, px) && rgb_srgb_converted(px, icc->0, art.rgba@)
    }
}

/// Whether a file is refused whatever moxcms does: it does not decode, or
/// it embeds a profile that does not parse or is not RGB.
pub open spec fn artwork_must_fail(bytes: Seq<u8>) -> bool {
    match artwork_header(bytes) {
        None => true,
        Some((_w, _h, icc)) => !no_profile(icc) && parsed_icc_color_space(icc->0) != Some(IccColorSpace::Rgb),
    }
}

/// Whether a file decodes and embeds an RGB profile, so that its pixels go
/// through a moxcms transform, which may or may not succeed.
pub open spec fn artwork_converts(bytes: Seq<u8>) -> bool {
    artwork_header(bytes) matches Some((_w, _h, icc)) && !no_profile(icc) && parsed_icc_color_space(icc->0) == Some(
        IccColorSpace::Rgb,
    )
}

/// The message a slot's artwork file is refused with, by its cause:
/// format undetected, format unsupported, decoder refusal, or a refused
/// conversion of the profile it embeds.
pub open spec fn artwork_refusal(slot_id: Seq<char>, bytes: Seq<u8>, message: Seq<char>) -> bool {
    match guessed_image_kind(bytes) {
        None => starts_with(message, "failed to detect artwork format for slot "@ + slot_id + ": "@),
        Some(ImageKind::Unsupported) => starts_with(message, "unsupported artwork format for slot "@ + slot_id + ": "@),
        Some(kind) => match artwork_header(bytes) {
            None => decode_failure(kind_name(kind), slot_id, message),
            Some((_w, _h, icc)) => !no_profile(icc) && profile_refusal(slot_id, icc->0, message),
        },
    }
}

impl DecodedArtwork {
    /// Decodes a slot's artwork file and, when it embeds an ICC profile,
    /// converts its pixels to sRGB. A file that cannot be decoded, or whose
    /// profile is not an RGB one, is refused; a file without a profile is
    /// never refused once it decodes.
    pub fn from_asset(asset: &PlantPrepressArtworkBytes) -> (res: Result<DecodedArtwork, PlantPrepressExportError>)
        ensures
            match res {
                Ok(art) => art.slot_id == asset.slot_id && decoded_from(asset.bytes@, art),
                Err(e) => artwork_refusal(asset.slot_id@, asset.bytes@, e.spec_message()),
            },
            artwork_must_fail(asset.bytes@) ==> res is Err,
            !artwork_must_fail(asset.bytes@) && !artwork_converts(asset.bytes@) ==> res is Ok,
    {
        let img = match decode_artwork_rgba(asset.slot_id.as_str(), asset.bytes.as_slice()) {
            Ok(d) => d,
            Err(e) => return Err(e),
        };
        let DecodedImage { width, height, rgba, icc_profile } = img;
        let ghost decoded_px = rgba@;
        let ghost icc = opt_bytes(icc_profile);
        assert(decoder_pixels(asset.bytes@, decoded_px));
        assert(artwork_header(asset.bytes@) == Some((width, height, icc)));
        let mut rgba = rgba;
        match &icc_profile {
            Some(profile) => {
                if profile.len() > 0 {
                    match normalize_rgba_to_srgb(asset.slot_id.as_str(), &mut rgba, profile.as_slice()) {
                        Ok(()) => {
                            assert(icc == Some(profile@));
                            assert(rgb_srgb_converted(decoded_px, icc->0, rgba@));
                        },
                        Err(e) => return Err(e),
                    }
                } else {
                    assert(no_profile(icc));
                }
            },
            None => {},
        }
        proof {
            if no_profile(icc) {
                assert(rgba@ == decoded_px);
            }
        }
        let art = DecodedArtwork { slot_id: asset.slot_id.clone(), width, height, rgba };
        assert(decoded_from(asset.bytes@, art));
        Ok(art)
    }
}

/// The message a conversion of an sRGB raster of `len` bytes to the target
/// profile is refused with, by its cause: a raster of partial pixels, a
/// profile that does not parse, one that is not CMYK, or, for a CMYK one, a
/// transform moxcms could not create or run.
pub open spec fn cmyk_refusal(len: nat, profile: Seq<u8>, message: Seq<char>) -> bool {
    if len % 3 != 0 {
        message == "RGB prepress raster length is not divisible by 3"@
    } else {
        match parsed_icc_color_space(profile) {
            None => starts_with(message, "failed to parse target CMYK ICC profile: "@),
            Some(IccColorSpace::Cmyk) => starts_with(message, "failed to create sRGB to target CMYK transform: "@)
                || starts_with(message, "failed to convert sRGB raster to target CMYK: "@),
            Some(_) => starts_with(message, "target ICC profile must be CMYK, got "@),
        }
    }
}

/// Converts the sRGB page raster to the CMYK of the target ICC profile
/// (moxcms, four bytes per pixel). A raster of partial pixels, a profile
/// that does not parse and a profile that is not CMYK are refused; the
/// converted values are left unstated.
pub fn rgb_to_target_cmyk(rgb: &[u8], target_icc_profile: &[u8]) -> (res: Result<Vec<u8>, PlantPrepressExportError>)
    ensures
        match res {
            Ok(cmyk) => rgb@.len() % 3 == 0 && cmyk@.len() == rgb@.len() / 3 * 4
                && parsed_icc_color_space(target_icc_profile@) == Some(IccColorSpace::Cmyk)
                && srgb_cmyk_converted(rgb@, target_icc_profile@, cmyk@),
            Err(e) => cmyk_refusal(rgb@.len(), target_icc_profile@, e.spec_message()),
        },
{
    if rgb.len() % 3 != 0 {
        return Err(PlantPrepressExportError::new(crate::text::to_string("RGB prepress raster length is not divisible by 3")));
    }
    let (space, name) = match icc_color_space(target_icc_profile) {
        Ok(v) => v,
        Err(d) => return Err(failure(chars_of("failed to parse target CMYK ICC profile: "), d.as_str())),
    };
    if space != IccColorSpace::Cmyk {
        return Err(failure(chars_of("target ICC profile must be CMYK, got "), name.as_str()));
    }
    let pixels = rgb.len() / 3;
    if pixels > (isize::MAX as usize) / 4 {
        return Err(failure(chars_of("failed to convert sRGB raster to target CMYK: "), "raster too large"));
    }
    let out_len: usize = pixels * 4;
    match convert_srgb_to_cmyk(rgb, target_icc_profile, out_len) {
        Ok(v) => Ok(v),
        Err(CmsFailure::Parse(d)) => Err(failure(chars_of("failed to parse target CMYK ICC profile: "), d.as_str())),
        Err(CmsFailure::Create(d)) => Err(failure(chars_of("failed to create sRGB to target CMYK transform: "), d.as_str())),
        Err(CmsFailure::Convert(d)) => Err(failure(chars_of("failed to convert sRGB raster to target CMYK: "), d.as_str())),
    }
}

/// The sizes the validator sees: each decoded artwork's slot and pixel size.
pub open spec fn artwork_infos(decoded: Seq<DecodedArtwork>) -> Seq<ArtworkInfo> {
    decoded.map_values(
        |d: DecodedArtwork| ArtworkInfo { slot_id: d.slot_id, width_px: d.width, height_px: d.height },
    )
}

fn artwork_infos_exec(decoded: &[DecodedArtwork]) -> (out: Vec<ArtworkInfo>)
    ensures
        out@ == artwork_infos(decoded@),
{
    let mut out: Vec<ArtworkInfo> = Vec::new();
    let mut i: usize = 0;
    while i < decoded.len()
        invariant
            i <= decoded@.len(),
            out@ == artwork_infos(decoded@.take(i as int)),
        decreases decoded@.len() - i,
    {
        out.push(ArtworkInfo { slot_id: decoded[i].slot_id.clone(), width_px: decoded[i].width, height_px: decoded[i].height });
        i = i + 1;
        assert(out@ =~= artwork_infos(decoded@.take(i as int)));
    }
    assert(decoded@.take(i as int) =~= decoded@);
    out
}

/// The detail of the first failed check, if any failed.
pub open spec fn first_failure(checks: Seq<CheckModel>) -> Option<Seq<char>>
    decreases checks.len(),
{
    if checks.len() == 0 {
        None
    } else if checks[0].1 == PlantPrepressPreflightStatus::Fail {
        Some(checks[0].3)
    } else {
        first_failure(checks.drop_first())
    }
}

fn first_failed_check(report: &PlantPrepressPreflightReport) -> (r: Option<usize>)
    ensures
        match r {
            Some(k) => k < report.checks@.len() && first_failure(report_model(*report)) == Some(
                report.checks@[k as int].detail@,
            ),
            None => first_failure(report_model(*report)) is None,
        },
{
    let ghost all = report_model(*report);
    let mut i: usize = 0;
    assert(all.skip(0) =~= all);
    while i < report.checks.len()
        invariant
            i <= report.checks@.len(),
            all == report_model(*report),
            first_failure(all) == first_failure(all.skip(i as int)),
        decreases report.checks@.len() - i,
    {
        assert(all.skip(i as int)[0] == check_model(report.checks@[i as int]));
        if report.checks[i].status == PlantPrepressPreflightStatus::Fail {
            return Some(i);
        }
        assert(all.skip(i as int).drop_first() =~= all.skip(i + 1));
        i = i + 1;
    }
    None
}

/// Whether a plan prints in grayscale (else in CMYK).
pub open spec fn is_grayscale(plan: PlantPrepressPlan) -> bool {
    plan.color_mode@ == "grayscale"@
}

/// Bytes per pixel of the printed raster.
pub open spec fn plate_channels(gray: bool) -> u8 {
    if gray { 1 } else { 4 }
}

/// The device colour space the raster falls back on.
pub open spec fn fallback_space(gray: bool) -> Seq<char> {
    if gray { "/DeviceGray"@ } else { "/DeviceCMYK"@ }
}

/// How the exporter converted the raster, as the preflight reports it.
pub open spec fn conversion_method(gray: bool) -> Seq<char> {
    if gray {
        "sRGB raster converted to grayscale luma"@
    } else {
        "sRGB raster converted to target CMYK ICC with moxcms"@
    }
}

/// Whether `image` is what the page converts to: its luma for grayscale;
/// for CMYK, four bytes per whole pixel, a raster the moxcms transform to
/// the target profile (which is CMYK) can give for the page.
pub open spec fn converted_from(plan: PlantPrepressPlan, page: Seq<u8>, profile: Seq<u8>, image: Seq<u8>) -> bool {
    if is_grayscale(plan) {
        image == spec_rgb_to_grayscale(page)
    } else {
        &&& page.len() % 3 == 0
        &&& image.len() == page.len() / 3 * 4
        &&& parsed_icc_color_space(profile) == Some(IccColorSpace::Cmyk)
        &&& srgb_cmyk_converted(page, profile, image)
    }
}

/// The plant-ready file of a plan around its converted raster, with the
/// compressed target profile in its output intent.
pub open spec fn pdf_from_plates(plan: PlantPrepressPlan, image: Seq<u8>, profile: Seq<u8>) -> Seq<u8> {
    let gray = is_grayscale(plan);
    spec_prepress_pdf(
        plan,
        zlib_compressed(image),
        zlib_compressed(encode_utf8(prepress_content(plan))),
        plate_channels(gray),
        fallback_space(gray),
        Some(zlib_compressed(profile)),
    )
}

/// Whether `pdf` is the file written from the page: for grayscale exactly
/// one file, for CMYK one per conversion moxcms may give.
pub open spec fn written_pdf(plan: PlantPrepressPlan, page: Seq<u8>, profile: Seq<u8>, pdf: Seq<u8>) -> bool {
    exists|image: Seq<u8>|
        #![trigger converted_from(plan, page, profile, image)]
        converted_from(plan, page, profile, image) && pdf == pdf_from_plates(plan, image, profile)
}

/// A page exported: the file written from it and that file's preflight,
/// with no failed check.
pub open spec fn page_exported(out: PlantPrepressPdf, job: PlantPrepressJob, page: Seq<u8>, profile: Seq<u8>) -> bool {
    let gray = is_grayscale(out.plan);
    &&& written_pdf(out.plan, page, profile, out.pdf_bytes@)
    &&& report_model(out.preflight) == spec_preflight_checks(
        job,
        out.plan,
        out.pdf_bytes@,
        plate_channels(gray),
        true,
        conversion_method(gray),
    )
    &&& first_failure(report_model(out.preflight)) is None
}

/// Whether the written file's own preflight refuses it: the message names
/// the first failed check.
pub open spec fn preflight_refused(plan: PlantPrepressPlan, job: PlantPrepressJob, page: Seq<u8>, profile: Seq<u8>, message: Seq<char>) -> bool {
    let gray = is_grayscale(plan);
    exists|pdf: Seq<u8>|
        #![trigger written_pdf(plan, page, profile, pdf)]
        written_pdf(plan, page, profile, pdf) && (first_failure(
            spec_preflight_checks(job, plan, pdf, plate_channels(gray), true, conversion_method(gray)),
        ) matches Some(d) && message == "plant preflight failed: "@ + d)
}

/// Why a rendered page is refused: for CMYK, the conversion to the target
/// profile is refused; or the written file fails its own preflight.
pub open spec fn page_refused(plan: PlantPrepressPlan, job: PlantPrepressJob, page: Seq<u8>, profile: Seq<u8>, message: Seq<char>) -> bool {
    ||| !is_grayscale(plan) && cmyk_refusal(page.len(), profile, message)
    ||| preflight_refused(plan, job, page, profile, message)
}

/// What exporting a validated plan gives: the reason its page cannot be
/// rendered; else, for the page rendered from the artworks, the file
/// written from it with its passing preflight, or the reason it is refused.
pub open spec fn plan_exported(
    plan: PlantPrepressPlan,
    job: PlantPrepressJob,
    decoded: Seq<DecodedArtwork>,
    profile: Seq<u8>,
    res: Result<PlantPrepressPdf, PlantPrepressExportError>,
) -> bool {
    match raster_refusal(plan, decoded) {
        Some(m) => res matches Err(e) && e.spec_message() == m,
        None => exists|page: Seq<u8>|
            #![trigger rendered_page(plan, decoded, page)]
            rendered_page(plan, decoded, page) && match res {
                Ok(out) => out.plan == plan && page_exported(out, job, page, profile),
                Err(e) => page_refused(plan, job, page, profile, e.spec_message()),
            },
    }
}

/// Converts a rendered page, writes the plant-ready file and preflights
/// it; refuses the file when a check fails.
pub fn export_page(
    job: &PlantPrepressJob,
    plan: PlantPrepressPlan,
    page: &[u8],
    profile: &[u8],
) -> (res: Result<PlantPrepressPdf, PlantPrepressExportError>)
    ensures
        match res {
            Ok(out) => out.plan == plan && page_exported(out, *job, page@, profile@),
            Err(e) => page_refused(plan, *job, page@, profile@, e.spec_message()),
        },
{
    let gray = chars_eq_str(chars_of(plan.color_mode.as_str()).as_slice(), "grayscale");
    let image: Vec<u8>;
    let channels: u8;
    let fallback: &str;
    let method: &str;
    if gray {
        image = rgb_to_grayscale(page);
        channels = 1;
        fallback = "/DeviceGray";
        method = "sRGB raster converted to grayscale luma";
    } else {
        image = match rgb_to_target_cmyk(page, profile) {
            Ok(v) => v,
            Err(e) => return Err(e),
        };
        channels = 4;
        fallback = "/DeviceCMYK";
        method = "sRGB raster converted to target CMYK ICC with moxcms";
    }
    assert(converted_from(plan, page@, profile@, image@));
    let pdf = match write_prepress_pdf(&plan, image.as_slice(), channels, fallback, Some(profile)) {
        Ok(p) => p,
        Err(e) => return Err(e),
    };
    assert(pdf@ == pdf_from_plates(plan, image@, profile@));
    assert(written_pdf(plan, page@, profile@, pdf@));
    let preflight = build_preflight_report(job, &plan, pdf.as_slice(), channels, Some(profile), method);
    match first_failed_check(&preflight) {
        Some(k) => {
            let mut m = chars_of("plant preflight failed: ");
            push_str(&mut m, preflight.checks[k].detail.as_str());
            return Err(PlantPrepressExportError::new(string_from_chars(m.as_slice())));
        },
        None => {},
    }
    Ok(PlantPrepressPdf { plan, preflight, pdf_bytes: pdf })
}

/// What exporting decoded artworks gives: the validation error when the job
/// has issues, the missing-profile error when no ICC bytes are given, else
/// what exporting the validated plan gives.
pub open spec fn export_outcome(
    job: PlantPrepressJob,
    decoded: Seq<DecodedArtwork>,
    icc: Option<Seq<u8>>,
    res: Result<PlantPrepressPdf, PlantPrepressExportError>,
) -> bool {
    let infos = artwork_infos(decoded);
    let issues = spec_plan_issues(job, infos);
    if issues.len() > 0 {
        res matches Err(e) && e.spec_message() == validation_message(issues)
    } else if no_profile(icc) {
        res matches Err(e) && e.spec_message() == "plant-ready PDF export requires ICC profile bytes"@
    } else {
        exists|plan: PlantPrepressPlan|
            #![trigger plan_matches(plan, job, infos)]
            plan_matches(plan, job, infos) && plan_exported(plan, job, decoded, icc->0, res)
    }
}

/// Exports decoded artworks: validates the job against their sizes,
/// requires ICC bytes, renders the page, converts it to grayscale luma or
/// the target CMYK, writes the PDF/X file and refuses it when its own
/// preflight reports a failure.
pub fn export_decoded(
    job: &PlantPrepressJob,
    decoded: &[DecodedArtwork],
    icc_profile_bytes: Option<&[u8]>,
) -> (res: Result<PlantPrepressPdf, PlantPrepressExportError>)
    ensures
        export_outcome(*job, decoded@, opt_slice(icc_profile_bytes), res),
{
    let infos = artwork_infos_exec(decoded);
    let plan = match build_prepress_plan(job, infos.as_slice()) {
        Ok(p) => p,
        Err(e) => return Err(PlantPrepressExportError::from_validation(e)),
    };
    let profile: &[u8] = match icc_profile_bytes {
        Some(b) => {
            if b.len() == 0 {
                return Err(PlantPrepressExportError::new(crate::text::to_string("plant-ready PDF export requires ICC profile bytes")));
            }
            b
        },
        None => {
            return Err(PlantPrepressExportError::new(crate::text::to_string("plant-ready PDF export requires ICC profile bytes")));
        },
    };
    let ghost infos_s = artwork_infos(decoded@);
    let page = match rasterize_prepress_page(&plan, decoded) {
        Ok(p) => p,
        Err(e) => {
            assert(plan_matches(plan, *job, infos_s) && plan_exported(plan, *job, decoded@, profile@, Err(e)));
            return Err(e);
        },
    };
    let ghost plan_s = plan;
    let ghost page_s = page@;
    let res = export_page(job, plan, page.as_slice(), profile);
    assert(rendered_page(plan_s, decoded@, page_s));
    assert(plan_exported(plan_s, *job, decoded@, profile@, res));
    assert(plan_matches(plan_s, *job, infos_s));
    res
}

/// What holds of artworks decoded from their files, one per file, in order.
pub open spec fn decoded_all(artworks: Seq<PlantPrepressArtworkBytes>, decoded: Seq<DecodedArtwork>) -> bool {
    &&& decoded.len() == artworks.len()
    &&& forall|i: int|
        0 <= i < artworks.len() ==> #[trigger] decoded[i].slot_id == artworks[i].slot_id && decoded_from(
            artworks[i].bytes@,
            decoded[i],
        )
}

/// Whether every file before slot `i` decodes whatever moxcms does.
pub open spec fn none_must_fail_before(artworks: Seq<PlantPrepressArtworkBytes>, i: int) -> bool {
    forall|j: int| 0 <= j < i ==> !artwork_must_fail(#[trigger] artworks[j].bytes@)
}

/// Whether every file before slot `i` decodes without a moxcms transform.
pub open spec fn none_may_fail_before(artworks: Seq<PlantPrepressArtworkBytes>, i: int) -> bool {
    forall|j: int|
        0 <= j < i ==> !artwork_must_fail(#[trigger] artworks[j].bytes@) && !artwork_converts(artworks[j].bytes@)
}

/// What exporting artwork files gives: the refusal of the first file that
/// does not decode, the files before it having decoded; or, when all of
/// them decode, what exporting the decoded artworks gives.
pub open spec fn export_result(
    job: PlantPrepressJob,
    artworks: Seq<PlantPrepressArtworkBytes>,
    icc: Option<Seq<u8>>,
    res: Result<PlantPrepressPdf, PlantPrepressExportError>,
) -> bool {
    ||| exists|i: int|
        0 <= i < artworks.len() && none_must_fail_before(artworks, i) && (res matches Err(e) && artwork_refusal(
            #[trigger] artworks[i].slot_id@,
            artworks[i].bytes@,
            e.spec_message(),
        ))
    ||| none_must_fail_before(artworks, artworks.len() as int) && exists|decoded: Seq<DecodedArtwork>|
        #![trigger decoded_all(artworks, decoded)]
        decoded_all(artworks, decoded) && export_outcome(job, decoded, icc, res)
}

/// Exports a plant-ready PDF/X file from a job and its artwork files:
/// decodes every file in order (converting embedded RGB profiles to sRGB),
/// then exports as `export_decoded` does. The first file that cannot be
/// decoded is refused with a message that names its slot; a file is
/// refused only for a cause its bytes show, or for a moxcms transform of
/// the RGB profile it embeds.
pub fn export_prepress_pdf(
    job: &PlantPrepressJob,
    artworks: &[PlantPrepressArtworkBytes],
    icc_profile_bytes: Option<&[u8]>,
) -> (res: Result<PlantPrepressPdf, PlantPrepressExportError>)
    ensures
        export_result(*job, artworks@, opt_slice(icc_profile_bytes), res),
        none_may_fail_before(artworks@, artworks@.len() as int) ==> exists|decoded: Seq<DecodedArtwork>|
            #![trigger decoded_all(artworks@, decoded)]
            decoded_all(artworks@, decoded) && export_outcome(*job, decoded, opt_slice(icc_profile_bytes), res),
        forall|i: int|
            0 <= i < artworks@.len() && none_may_fail_before(artworks@, i) && artwork_must_fail(
                #[trigger] artworks@[i].bytes@,
            ) ==> (res matches Err(e) && artwork_refusal(artworks@[i].slot_id@, artworks@[i].bytes@, e.spec_message())),
{
    let mut decoded: Vec<DecodedArtwork> = Vec::new();
    let mut i: usize = 0;
    while i < artworks.len()
        invariant
            i <= artworks@.len(),
            decoded_all(artworks@.take(i as int), decoded@),
            none_must_fail_before(artworks@, i as int),
        decreases artworks@.len() - i,
    {
        let ghost before = decoded@;
        match DecodedArtwork::from_asset(&artworks[i]) {
            Ok(art) => decoded.push(art),
            Err(e) => {
                proof {
                    assert forall|k: int|
                        0 <= k < artworks@.len() && none_may_fail_before(artworks@, k) && artwork_must_fail(
                            #[trigger] artworks@[k].bytes@,
                        ) implies k == i by {
                        if k < i {
                            assert(!artwork_must_fail(artworks@[k].bytes@));
                        } else if k > i {
                            assert(!artwork_must_fail(artworks@[i as int].bytes@) && !artwork_converts(artworks@[i as int].bytes@));
                        }
                    }
                    if none_may_fail_before(artworks@, artworks@.len() as int) {
                        assert(!artwork_must_fail(artworks@[i as int].bytes@) && !artwork_converts(artworks@[i as int].bytes@));
                    }
                }
                return Err(e);
            },
        }
        proof {
            let prefix = artworks@.take(i + 1);
            assert(decoded@.len() == prefix.len());
            assert forall|j: int| 0 <= j < prefix.len() implies #[trigger] decoded@[j].slot_id == prefix[j].slot_id
                && decoded_from(prefix[j].bytes@, decoded@[j]) by {
                if j < i {
                    assert(decoded@[j] == before[j]);
                    assert(prefix[j] == artworks@.take(i as int)[j]);
                }
            }
            assert forall|j: int| 0 <= j < i + 1 implies !artwork_must_fail(#[trigger] artworks@[j].bytes@) by {
                if j < i {
                    assert(!artwork_must_fail(artworks@[j].bytes@));
                }
            }
        }
        i = i + 1;
    }
    assert(artworks@.take(i as int) =~= artworks@);
    let res = export_decoded(job, decoded.as_slice(), icc_profile_bytes);
    assert(decoded_all(artworks@, decoded@));
    proof {
        assert forall|k: int|
            0 <= k < artworks@.len() && none_may_fail_before(artworks@, k) && artwork_must_fail(
                #[trigger] artworks@[k].bytes@,
            ) implies (res matches Err(e) && artwork_refusal(artworks@[k].slot_id@, artworks@[k].bytes@, e.spec_message())) by {
            assert(!artwork_must_fail(artworks@[k].bytes@));
        }
    }
    res
}

} // verus!
