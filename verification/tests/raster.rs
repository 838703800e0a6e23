use record_prepress::cli::CliOptions;
use record_prepress::native::{
    clean_command_output, native_failure_message, native_preflight_report, native_structural_checks,
    tool_check, NativeTool, ToolOutcome,
};
use record_prepress::{
    checked_image_len, cover_crop, mask_cutouts, rasterize_prepress_page, resize_cover_rgba, rgb_to_grayscale,
    DecodedArtwork, PlantPrepressPlacement, PlantPrepressPlacementShape, PlantPrepressPlan,
    PlantPrepressSlotPlan,
};

fn placement(x_um: i64, y_um: i64, w_um: i64, h_um: i64, shape: PlantPrepressPlacementShape) -> PlantPrepressPlacement {
    PlantPrepressPlacement { x_um, y_um, width_um: w_um, height_um: h_um, shape }
}

/// A plan at 254 dpi, so one pixel is a tenth of a millimetre (100 um).
fn mm_plan(width_px: u32, height_px: u32, slots: Vec<(String, PlantPrepressPlacement)>, cutouts: Vec<PlantPrepressPlacement>) -> PlantPrepressPlan {
    PlantPrepressPlan {
        template_id: "t".to_string(),
        template_version: None,
        template_name: "T".to_string(),
        page_width_um: width_px as i64 * 100,
        page_height_um: height_px as i64 * 100,
        page_width_px: width_px,
        page_height_px: height_px,
        target_dpi: 254,
        color_mode: "grayscale".to_string(),
        source_rgb_profile: "srgb".to_string(),
        pdf_standard: "pdf/x-4".to_string(),
        icc_profile: "x".to_string(),
        output_condition_identifier: "x".to_string(),
        safety_clearance_confirmed: true,
        slots: slots
            .into_iter()
            .enumerate()
            .map(|(i, (slot_id, p))| PlantPrepressSlotPlan {
                slot_id,
                artwork_path: String::new(),
                placement_index: i,
                placement: p,
                effective_ppi_milli: 0,
                effective_ppi_exact: true,
            })
            .collect(),
        bleed_areas: Vec::new(),
        trim_areas: Vec::new(),
        cutouts,
        safety_areas: Vec::new(),
    }
}

fn solid(slot_id: &str, width: u32, height: u32, pixel: [u8; 4]) -> DecodedArtwork {
    let mut rgba = Vec::new();
    for _ in 0..width * height {
        rgba.extend_from_slice(&pixel);
    }
    DecodedArtwork { slot_id: slot_id.to_string(), width, height, rgba }
}

fn pixel(page: &[u8], width: u32, x: u32, y: u32) -> [u8; 3] {
    let i = ((y * width + x) * 3) as usize;
    [page[i], page[i + 1], page[i + 2]]
}

#[test]
fn checked_image_len_refuses_what_does_not_fit() {
    assert_eq!(checked_image_len(3, 4, 3, "page").unwrap(), 36);
    assert_eq!(checked_image_len(usize::MAX, 2, 1, "page").unwrap_err().message(), "page is too large");
    assert_eq!(checked_image_len(usize::MAX / 2 + 1, 1, 2, "raster").unwrap_err().message(), "raster is too large");
}

#[test]
fn grayscale_uses_rounded_down_luma_and_drops_partial_pixels() {
    assert_eq!(rgb_to_grayscale(&[255, 255, 255, 0, 0, 0, 255, 0, 0, 7]), vec![255, 0, 76]);
    assert_eq!(rgb_to_grayscale(&[0, 255, 0, 0, 0, 255]), vec![149, 29]);
}

#[test]
fn cover_resize_fills_the_slot_and_refuses_empty_sizes() {
    let art = solid("a", 4, 2, [10, 20, 30, 255]);
    let out = resize_cover_rgba(&art, 4, 2).unwrap();
    assert_eq!(out, art.rgba);
    let scaled = resize_cover_rgba(&art, 2, 2).unwrap();
    assert_eq!(scaled.len(), 2 * 2 * 4);
    assert!(scaled.chunks(4).all(|p| p == [10, 20, 30, 255]));
    assert_eq!(resize_cover_rgba(&art, 0, 2).unwrap_err().message(), "artwork or placement has zero size");
    let broken = DecodedArtwork { slot_id: "a".to_string(), width: 4, height: 2, rgba: vec![0; 31] };
    assert_eq!(resize_cover_rgba(&broken, 2, 2).unwrap_err().message(), "decoded artwork RGBA buffer is invalid");
}

#[test]
fn page_is_white_outside_the_slots_and_composited_inside() {
    let plan = mm_plan(
        6,
        4,
        vec![("a".to_string(), placement(100, 100, 200, 200, PlantPrepressPlacementShape::Rect))],
        Vec::new(),
    );
    let page = rasterize_prepress_page(&plan, &[solid("a", 2, 2, [0, 0, 0, 255])]).unwrap();
    assert_eq!(page.len(), 6 * 4 * 3);
    assert_eq!(pixel(&page, 6, 0, 0), [255, 255, 255]);
    assert_eq!(pixel(&page, 6, 1, 1), [0, 0, 0]);
    assert_eq!(pixel(&page, 6, 2, 2), [0, 0, 0]);
    assert_eq!(pixel(&page, 6, 3, 2), [255, 255, 255]);
    assert_eq!(pixel(&page, 6, 5, 3), [255, 255, 255]);
}

#[test]
fn half_transparent_artwork_blends_over_white() {
    let plan = mm_plan(
        2,
        1,
        vec![("a".to_string(), placement(0, 0, 200, 100, PlantPrepressPlacementShape::Rect))],
        Vec::new(),
    );
    let page = rasterize_prepress_page(&plan, &[solid("a", 2, 1, [0, 100, 255, 128])]).unwrap();
    // (0 * 128 + 255 * 127 + 127) / 255 = 127; (100 * 128 + 255 * 127 + 127) / 255 = 177.
    assert_eq!(pixel(&page, 2, 0, 0), [127, 177, 255]);
}

#[test]
fn circular_slots_leave_their_corners_white_and_cutouts_are_punched() {
    let plan = mm_plan(
        5,
        5,
        vec![("a".to_string(), placement(0, 0, 500, 500, PlantPrepressPlacementShape::Circle))],
        vec![placement(200, 200, 100, 100, PlantPrepressPlacementShape::Rect)],
    );
    let page = rasterize_prepress_page(&plan, &[solid("a", 5, 5, [0, 0, 0, 255])]).unwrap();
    assert_eq!(pixel(&page, 5, 0, 0), [255, 255, 255]);
    assert_eq!(pixel(&page, 5, 4, 4), [255, 255, 255]);
    assert_eq!(pixel(&page, 5, 2, 0), [0, 0, 0]);
    assert_eq!(pixel(&page, 5, 1, 2), [0, 0, 0]);
    assert_eq!(pixel(&page, 5, 2, 2), [255, 255, 255]);
}

#[test]
fn the_last_artwork_given_for_a_slot_is_used() {
    let plan = mm_plan(
        1,
        1,
        vec![("a".to_string(), placement(0, 0, 100, 100, PlantPrepressPlacementShape::Rect))],
        Vec::new(),
    );
    let page = rasterize_prepress_page(
        &plan,
        &[solid("a", 1, 1, [1, 2, 3, 255]), solid("a", 1, 1, [4, 5, 6, 255])],
    )
    .unwrap();
    assert_eq!(page, vec![4, 5, 6]);
    let missing = rasterize_prepress_page(&plan, &[solid("b", 1, 1, [0, 0, 0, 255])]).unwrap_err();
    assert_eq!(missing.message(), "missing artwork bytes for slot a");
}

#[test]
fn slots_off_the_page_are_clipped() {
    let plan = mm_plan(
        2,
        2,
        vec![("a".to_string(), placement(-100, -100, 200, 200, PlantPrepressPlacementShape::Rect))],
        Vec::new(),
    );
    let page = rasterize_prepress_page(&plan, &[solid("a", 2, 2, [9, 9, 9, 255])]).unwrap();
    assert_eq!(page, vec![9, 9, 9, 255, 255, 255, 255, 255, 255, 255, 255, 255]);
}

#[test]
fn masking_paints_cutouts_white() {
    let plan = mm_plan(2, 1, Vec::new(), vec![placement(100, 0, 100, 100, PlantPrepressPlacementShape::Rect)]);
    let mut page = vec![0u8; 6];
    mask_cutouts(&mut page, &plan).unwrap();
    assert_eq!(page, vec![0, 0, 0, 255, 255, 255]);
    // Bytes past the page are left alone.
    let mut longer = vec![0u8; 9];
    mask_cutouts(&mut longer, &plan).unwrap();
    assert_eq!(longer, vec![0, 0, 0, 255, 255, 255, 0, 0, 0]);
}

#[test]
fn command_output_prefers_the_primary_stream_and_trims_it() {
    assert_eq!(clean_command_output(b"  warn \n", b"other"), Some("warn".to_string()));
    assert_eq!(clean_command_output(b"", b" \xff ok "), Some("\u{fffd} ok".to_string()));
    assert_eq!(clean_command_output(b"   ", b"other"), None);
    assert_eq!(clean_command_output(b"", b""), None);
}

#[test]
fn native_structural_checks_read_the_bytes() {
    let good = b"%PDF-1.7 /GTS_PDFXVersion /OutputIntents /S /GTS_PDFX pdfxid:GTS_PDFXVersion /MediaBox /TrimBox /BleedBox";
    let checks = native_structural_checks(good);
    assert_eq!(checks.len(), 4);
    assert!(checks.iter().all(|c| c.status == "pass"));
    let bad = b"%PS /DeviceRGB /MediaBox";
    let checks = native_structural_checks(bad);
    assert!(checks.iter().all(|c| c.status == "fail"));
    assert_eq!(checks[0].detail, "File does not start with a PDF header.");
    assert_eq!(checks[2].detail, "Object text contains an RGB/Lab color space marker.");
}

#[test]
fn validator_runs_become_checks() {
    let missing = tool_check(NativeTool::Ghostscript, ToolOutcome::NotFound);
    assert_eq!(missing.status, "warn");
    assert_eq!(missing.summary, "Ghostscript is not installed");
    let rejected = tool_check(
        NativeTool::VeraPdf,
        ToolOutcome::Exited { success: false, status: "exit status: 1".to_string(), stdout: Vec::new(), stderr: Vec::new() },
    );
    assert_eq!(rejected.status, "fail");
    assert_eq!(rejected.detail, "veraPDF exited with status exit status: 1");
    let parsed = tool_check(
        NativeTool::Ghostscript,
        ToolOutcome::Exited { success: true, status: "exit status: 0".to_string(), stdout: b"out".to_vec(), stderr: b" err ".to_vec() },
    );
    assert_eq!(parsed.id, "ghostscript-parse");
    assert_eq!(parsed.detail, "err");
    let broken = tool_check(NativeTool::VeraPdf, ToolOutcome::Failed("permission denied".to_string()));
    assert_eq!((broken.status.as_str(), broken.detail.as_str()), ("fail", "permission denied"));
}

#[test]
fn native_report_fails_on_its_first_failed_check() {
    let report = native_preflight_report(
        "x.pdf".to_string(),
        b"%PDF-1.7",
        ToolOutcome::NotFound,
        ToolOutcome::NotFound,
    );
    assert_eq!(report.checks.len(), 6);
    assert_eq!(report.pdf, "x.pdf");
    assert_eq!(
        native_failure_message(&report),
        Some("native preflight failed: Missing one or more PDF/X marker, XMP marker, or OutputIntent dictionary.".to_string())
    );
}

#[test]
fn command_line_options_take_paths_and_stop_at_help() {
    let args: Vec<String> = ["--job", "job.json", "--out", "a.pdf", "--out", "b.pdf"].iter().map(|s| s.to_string()).collect();
    let o = CliOptions::parse(&args).unwrap();
    assert_eq!(o.job.as_deref(), Some("job.json"));
    assert_eq!(o.out.as_deref(), Some("b.pdf"));
    assert!(!o.help);
    let help: Vec<String> = ["--pdf", "p.pdf", "-h", "--bogus"].iter().map(|s| s.to_string()).collect();
    let o = CliOptions::parse(&help).unwrap();
    assert!(o.help);
    assert_eq!(o.pdf.as_deref(), Some("p.pdf"));
    let missing: Vec<String> = vec!["--icc-profile".to_string()];
    assert_eq!(CliOptions::parse(&missing).unwrap_err(), "--icc-profile requires a path");
    let unknown: Vec<String> = vec!["--fast".to_string()];
    assert_eq!(CliOptions::parse(&unknown).unwrap_err(), "unknown option: --fast");
}

#[test]
fn cover_resize_scales_small_artwork_up_to_the_slot() {
    let art = solid("a", 2, 2, [50, 60, 70, 255]);
    let out = resize_cover_rgba(&art, 4, 4).unwrap();
    assert_eq!(out.len(), 4 * 4 * 4);
    assert!(out.chunks(4).all(|p| p[3] == 255));
    let wide = resize_cover_rgba(&solid("b", 4, 1, [0, 0, 0, 255]), 2, 2).unwrap();
    assert_eq!(wide.len(), 2 * 2 * 4);
}

#[test]
fn cover_crop_takes_the_centred_window() {
    // A 4 x 3 raster whose pixel (x, y) holds [x, y, 7, 255].
    let mut raw = Vec::new();
    for y in 0..3u8 {
        for x in 0..4u8 {
            raw.extend_from_slice(&[x, y, 7, 255]);
        }
    }
    let out = cover_crop(&raw, 4, 3, 2, 1);
    assert_eq!(out, vec![1, 1, 7, 255, 2, 1, 7, 255]);
    assert_eq!(cover_crop(&raw, 4, 3, 4, 3), raw);
}
