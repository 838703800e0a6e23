use image::codecs::png::{CompressionType, FilterType, PngEncoder};
use image::{ExtendedColorType, ImageEncoder};
use moxcms::{ColorProfile, DataColorSpace, LutDataType, LutStore, LutType, LutWarehouse, Matrix3d, ProfileClass};
use record_prepress::{
    build_prepress_plan, effective_ppi, export_prepress_pdf, mm_to_px, mm_to_px_offset,
    normalize_color_requirement, pack_preflight_markdown, pack_readme, target_dpi, ArtworkInfo,
    CircleUm, GuideGeometry, GuideLayerKind, PlantPrepressArtworkBytes, PlantPrepressArtworkSlot,
    PlantPrepressJob, PlantPrepressPlacement, PlantPrepressPlacementShape, PlantPrepressPlan,
    PlantPrepressPreflightCheck, PlantPrepressPreflightReport, PlantPrepressPreflightStatus,
    PlantPrepressSafetyClearance, PlantPrepressTarget, PlantPrepressValidationError, PlantTemplate,
    PrintRequirements, RecordPlantTemplateKind, RectUm, TemplateGuide,
    PACK_PLANT_READY_PDF_NAME,
};

fn guide(id: &str, layer: GuideLayerKind, cx: i32, cy: i32, radius: i32) -> TemplateGuide {
    TemplateGuide {
        id: id.to_string(),
        layer,
        geometry: GuideGeometry::Circle { circle: CircleUm { cx, cy, radius } },
    }
}

fn two_up_job() -> PlantPrepressJob {
    PlantPrepressJob {
        template: PlantTemplate {
            id: "test-two-up".to_string(),
            name: "Test two-up".to_string(),
            version: Some("test".to_string()),
            kind: RecordPlantTemplateKind::CenterLabel,
            document: RectUm { x: 0, y: 0, width: 210_000, height: 100_000 },
            guides: vec![
                guide("left-bleed", GuideLayerKind::Bleed, 50_000, 50_000, 48_000),
                guide("right-bleed", GuideLayerKind::Bleed, 160_000, 50_000, 48_000),
                guide("left-safety", GuideLayerKind::Safety, 50_000, 50_000, 44_000),
                guide("right-safety", GuideLayerKind::Safety, 160_000, 50_000, 44_000),
                guide("left-hole", GuideLayerKind::Hole, 50_000, 50_000, 3_500),
                guide("right-hole", GuideLayerKind::Hole, 160_000, 50_000, 3_500),
            ],
            requirements: PrintRequirements {
                accepted_formats: vec!["PDF".to_string()],
                color_modes: vec!["CMYK".to_string(), "grayscale".to_string()],
                min_raster_ppi: Some(300),
                keep_template_layer_out_of_final: true,
                pdf_standard: Some("PDF/X-4".to_string()),
                output_condition_identifier: None,
            },
        },
        slots: vec![
            PlantPrepressArtworkSlot {
                id: "side_a".to_string(),
                artwork_path: "a.png".to_string(),
                placement_index: None,
            },
            PlantPrepressArtworkSlot {
                id: "side_b".to_string(),
                artwork_path: "b.png".to_string(),
                placement_index: None,
            },
        ],
        target: PlantPrepressTarget {
            dpi: Some(300),
            color_mode: Some("CMYK".to_string()),
            icc_profile: Some("/profiles/plant.icc".to_string()),
            source_rgb_profile: None,
            pdf_standard: Some("PDF/X-4".to_string()),
            output_condition_identifier: None,
        },
        safety_clearance: PlantPrepressSafetyClearance { confirmed: true },
    }
}

fn infos(a: u32, b: u32) -> Vec<ArtworkInfo> {
    vec![
        ArtworkInfo { slot_id: "side_a".to_string(), width_px: a, height_px: a },
        ArtworkInfo { slot_id: "side_b".to_string(), width_px: b, height_px: b },
    ]
}

fn has_issue(error: &PlantPrepressValidationError, text: &str) -> bool {
    error.issues().iter().any(|issue| issue.contains(text))
}

fn rgba_png(rgba: &[u8], width: u32, height: u32) -> Vec<u8> {
    let mut out = Vec::new();
    let encoder = PngEncoder::new_with_quality(&mut out, CompressionType::Best, FilterType::Adaptive);
    encoder.write_image(rgba, width, height, ExtendedColorType::Rgba8).unwrap();
    out
}

fn solid_rgba_png(width: u32, height: u32, pixel: [u8; 4]) -> Vec<u8> {
    let mut rgba = vec![0; width as usize * height as usize * 4];
    for chunk in rgba.chunks_exact_mut(4) {
        chunk.copy_from_slice(&pixel);
    }
    rgba_png(&rgba, width, height)
}

fn two_slot_artworks() -> Vec<PlantPrepressArtworkBytes> {
    vec![
        PlantPrepressArtworkBytes {
            slot_id: "side_a".to_string(),
            bytes: solid_rgba_png(1200, 1200, [240, 20, 40, 255]),
        },
        PlantPrepressArtworkBytes {
            slot_id: "side_b".to_string(),
            bytes: solid_rgba_png(1200, 1200, [20, 80, 240, 255]),
        },
    ]
}

fn two_up_plan_and_preflight() -> (PlantPrepressJob, PlantPrepressPlan, PlantPrepressPreflightReport) {
    let job = two_up_job();
    let plan = build_prepress_plan(&job, &infos(1200, 1200)).unwrap();
    let preflight = PlantPrepressPreflightReport {
        checks: vec![PlantPrepressPreflightCheck {
            id: "raster-resolution".to_string(),
            status: PlantPrepressPreflightStatus::Pass,
            summary: "Placed artwork meets the template raster minimum".to_string(),
            detail: "Every slot resolves above the plant minimum.".to_string(),
        }],
    };
    (job, plan, preflight)
}

#[test]
fn validates_two_up_slots_without_duplication() {
    let job = two_up_job();
    let plan = build_prepress_plan(&job, &infos(1200, 1200)).unwrap();
    assert_eq!(plan.slots.len(), 2);
    assert_eq!(plan.template_version.as_deref(), Some("test"));
    assert_eq!(plan.slots[0].slot_id, "side_a");
    assert_eq!(plan.slots[0].placement_index, 0);
    assert_eq!(plan.slots[1].slot_id, "side_b");
    assert_eq!(plan.slots[1].placement_index, 1);
    assert_eq!(plan.bleed_areas.len(), 2);
    assert_eq!(plan.trim_areas.len(), 0);
    assert_eq!(plan.cutouts.len(), 0);
    assert_eq!(plan.safety_areas.len(), 2);
}

#[test]
fn rejects_single_artwork_for_two_up_template() {
    let mut job = two_up_job();
    job.slots.truncate(1);
    let error = build_prepress_plan(
        &job,
        &[ArtworkInfo { slot_id: "side_a".to_string(), width_px: 1200, height_px: 1200 }],
    )
    .unwrap_err();
    assert!(has_issue(&error, "template has 2 print slots"));
}

#[test]
fn rejects_missing_cmyk_icc_profile() {
    let mut job = two_up_job();
    job.target.icc_profile = None;
    let error = build_prepress_plan(&job, &infos(1200, 1200)).unwrap_err();
    assert!(has_issue(&error, "requires target.iccProfile"));
}

#[test]
fn rejects_low_effective_ppi() {
    let job = two_up_job();
    let error = build_prepress_plan(&job, &infos(600, 1200)).unwrap_err();
    assert!(has_issue(&error, "below target 300 ppi"));
}

#[test]
fn rejects_unconfirmed_safety_clearance() {
    let mut job = two_up_job();
    job.safety_clearance.confirmed = false;
    let error = build_prepress_plan(&job, &infos(1200, 1200)).unwrap_err();
    assert!(has_issue(&error, "safetyClearance.confirmed"));
}

#[test]
fn rejects_missing_known_plant_requirements() {
    let mut job = two_up_job();
    job.template.requirements.accepted_formats = vec!["TIFF".to_string()];
    job.template.requirements.keep_template_layer_out_of_final = false;
    job.target.color_mode = Some("RGB".to_string());
    let error = build_prepress_plan(&job, &infos(1200, 1200)).unwrap_err();
    assert!(has_issue(&error, "accepts PDF output"));
    assert!(has_issue(&error, "template/guide layers"));
    assert!(has_issue(&error, "colorMode must be CMYK or grayscale"));
}

#[test]
fn validation_errors_list_every_issue_in_order() {
    let mut job = two_up_job();
    job.template.id = "  ".to_string();
    job.target.icc_profile = Some("   ".to_string());
    let error = build_prepress_plan(&job, &infos(1200, 1200)).unwrap_err();
    assert_eq!(
        error.issues().to_vec(),
        vec![
            "template id is required".to_string(),
            "plant-ready PDF export requires target.iccProfile".to_string(),
        ]
    );
    assert_eq!(
        error.to_string(),
        "plant prepress validation failed; template id is required; plant-ready PDF export requires target.iccProfile"
    );
}

#[test]
fn low_ppi_message_names_the_slot_and_its_resolution() {
    let job = two_up_job();
    let error = build_prepress_plan(&job, &infos(600, 1200)).unwrap_err();
    // 600 px over a 96 mm placement is 158.75 ppi.
    assert_eq!(
        error.issues().to_vec(),
        vec!["artwork slot side_a is 158.8 ppi at placed size, below target 300 ppi".to_string()]
    );
}

#[test]
fn duplicate_placement_index_is_refused() {
    let mut job = two_up_job();
    job.slots[0].placement_index = Some(1);
    job.slots[1].placement_index = Some(1);
    let error = build_prepress_plan(&job, &infos(1200, 1200)).unwrap_err();
    assert_eq!(error.issues().to_vec(), vec!["multiple artwork slots target placementIndex 1".to_string()]);
}

#[test]
fn plan_geometry_is_exact_at_the_target_dpi() {
    let (_, plan, _) = two_up_plan_and_preflight();
    assert_eq!(plan.page_width_px, 2481);
    assert_eq!(plan.page_height_px, 1182);
    assert_eq!(plan.target_dpi, 300);
    assert_eq!(plan.color_mode, "cmyk");
    assert_eq!(plan.pdf_standard, "pdf/x-4");
    assert_eq!(plan.output_condition_identifier, "/profiles/plant.icc");
    assert_eq!(
        plan.slots[0].placement,
        PlantPrepressPlacement {
            x_um: 2_000,
            y_um: 2_000,
            width_um: 96_000,
            height_um: 96_000,
            shape: PlantPrepressPlacementShape::Circle,
        }
    );
    // 1200 px over 96 mm: 317.5 ppi.
    assert_eq!(plan.slots[0].effective_ppi_milli, 317_500);
}

#[test]
fn unit_conversions_round_as_documented() {
    assert_eq!(mm_to_px(25_400, 300), 300);
    assert_eq!(mm_to_px(25_401, 300), 301);
    assert_eq!(mm_to_px(0, 300), 1);
    assert_eq!(mm_to_px(-5_000, 300), 1);
    assert_eq!(mm_to_px_offset(2_000, 300), 24);
    assert_eq!(mm_to_px_offset(-2_000, 300), -24);
    assert_eq!(mm_to_px_offset(127, 100), 1);
    let placement = PlantPrepressPlacement {
        x_um: 0,
        y_um: 0,
        width_um: 50_800,
        height_um: 25_400,
        shape: PlantPrepressPlacementShape::Rect,
    };
    let info = ArtworkInfo { slot_id: "s".to_string(), width_px: 600, height_px: 600 };
    assert_eq!(effective_ppi(&info, placement), 300_000);
}

#[test]
fn target_dpi_never_drops_below_the_default() {
    let mut job = two_up_job();
    job.target.dpi = Some(150);
    assert_eq!(target_dpi(&job), 300);
    job.target.dpi = Some(600);
    assert_eq!(target_dpi(&job), 600);
    job.target.dpi = None;
    job.template.requirements.min_raster_ppi = Some(400);
    assert_eq!(target_dpi(&job), 400);
}

#[test]
fn resolutions_print_to_one_decimal_with_exact_halves_to_even() {
    let text = |milli: u64, exact: bool| {
        let mut out = Vec::new();
        record_prepress::plan::push_ppi_one_decimal(&mut out, milli, exact);
        out.into_iter().collect::<String>()
    };
    assert_eq!(text(299_250, true), "299.2");
    assert_eq!(text(299_350, true), "299.4");
    assert_eq!(text(299_250, false), "299.3");
    assert_eq!(text(299_249, true), "299.2");
    assert_eq!(text(300_000, true), "300.0");
    let info = ArtworkInfo { slot_id: "s".to_string(), width_px: 1197, height_px: 1197 };
    let square = |um: i64| PlantPrepressPlacement {
        x_um: 0,
        y_um: 0,
        width_um: um,
        height_um: um,
        shape: PlantPrepressPlacementShape::Rect,
    };
    assert_eq!(effective_ppi(&info, square(101_600)), 299_250);
    assert!(record_prepress::effective_ppi_is_exact(&info, square(101_600)));
    assert!(!record_prepress::effective_ppi_is_exact(&info, square(99_999)));
}

#[test]
fn color_requirements_normalise_to_the_plan_modes() {
    assert_eq!(normalize_color_requirement(" Process Colour "), "cmyk");
    assert_eq!(normalize_color_requirement("GREY"), "grayscale");
    assert_eq!(normalize_color_requirement("Spot"), "spot");
}

#[test]
fn pack_preflight_markdown_keeps_each_check_on_one_row() {
    let (_, plan, _) = two_up_plan_and_preflight();
    let preflight = PlantPrepressPreflightReport {
        checks: vec![PlantPrepressPreflightCheck {
            id: "pipes".to_string(),
            status: PlantPrepressPreflightStatus::Warn,
            summary: "A | B".to_string(),
            detail: "first\nsecond".to_string(),
        }],
    };
    let markdown = pack_preflight_markdown(&plan, &preflight);
    let row = markdown.lines().last().unwrap();
    assert_eq!(row, "| warn | A \\| B | first second |");
}

#[test]
fn pack_preflight_markdown_falls_back_to_the_check_id() {
    let (_, plan, _) = two_up_plan_and_preflight();
    let preflight = PlantPrepressPreflightReport {
        checks: vec![PlantPrepressPreflightCheck {
            id: "raster-resolution".to_string(),
            status: PlantPrepressPreflightStatus::Pass,
            summary: "   ".to_string(),
            detail: String::new(),
        }],
    };
    assert!(pack_preflight_markdown(&plan, &preflight).contains("| pass | raster-resolution |  |"));
}

#[test]
fn pack_preflight_markdown_heads_the_table_with_the_plan() {
    let (_, plan, preflight) = two_up_plan_and_preflight();
    let markdown = pack_preflight_markdown(&plan, &preflight);
    assert_eq!(
        markdown,
        "# Preflight\n\nTemplate: Test two-up\nOutput condition: /profiles/plant.icc\nTarget: CMYK at 300 DPI\n\n| Status | Check | Detail |\n| --- | --- | --- |\n| pass | Placed artwork meets the template raster minimum | Every slot resolves above the plant minimum. |\n"
    );
}

#[test]
fn pack_readme_points_the_plant_at_the_production_file() {
    let (_, plan, _) = two_up_plan_and_preflight();
    let readme = pack_readme(&plan);
    assert!(readme.contains("Do not print the proof guide layer."));
    assert!(readme.contains(&format!("Use `{PACK_PLANT_READY_PDF_NAME}` for production.")));
    assert!(readme.contains(&format!("{} DPI", plan.target_dpi)));
    assert!(readme.contains("- Slots: 2 artwork placement(s)."));
}

#[test]
fn pack_readme_trims_trailing_zeros_from_page_dimensions() {
    let (_, mut plan, _) = two_up_plan_and_preflight();
    plan.page_width_um = 106_000;
    plan.page_height_um = 98_425;
    assert!(pack_readme(&plan).contains("- Page: 106 x 98.425 mm,"));
}

#[test]
fn export_rejects_missing_cmyk_icc_profile_bytes() {
    let job = two_up_job();
    let error = export_prepress_pdf(
        &job,
        &[
            PlantPrepressArtworkBytes {
                slot_id: "side_a".to_string(),
                bytes: solid_rgba_png(1200, 1200, [240, 20, 40, 255]),
            },
            PlantPrepressArtworkBytes {
                slot_id: "side_b".to_string(),
                bytes: solid_rgba_png(1200, 1200, [20, 80, 240, 255]),
            },
        ],
        None,
    )
    .unwrap_err();
    assert!(error.message().contains("requires ICC profile bytes"));
}

#[test]
fn export_rejects_invalid_cmyk_icc_profile_bytes() {
    let job = two_up_job();
    let error =
        export_prepress_pdf(&job, &two_slot_artworks(), Some(b"test-cmyk-icc-profile")).unwrap_err();
    assert!(error.message().contains("failed to parse target CMYK ICC profile"));
}

#[test]
fn export_rejects_rgb_icc_profile_as_cmyk_target() {
    let job = two_up_job();
    let rgb_profile = moxcms::ColorProfile::new_srgb().encode().unwrap();
    let error = export_prepress_pdf(&job, &two_slot_artworks(), Some(&rgb_profile)).unwrap_err();
    assert!(error.message().contains("target ICC profile must be CMYK"));
}

#[test]
fn export_rejects_single_artwork_for_two_up_template() {
    let mut job = two_up_job();
    job.slots.truncate(1);
    let error = export_prepress_pdf(
        &job,
        &[PlantPrepressArtworkBytes {
            slot_id: "side_a".to_string(),
            bytes: solid_rgba_png(1200, 1200, [240, 20, 40, 255]),
        }],
        None,
    )
    .unwrap_err();
    assert!(error.message().contains("template has 2 print slots"));
}

/// A small CMYK output profile: Lab to CMYK and back through two-point
/// 16-bit tables, enough for moxcms to build an sRGB to CMYK transform.
fn synthetic_cmyk_profile() -> Vec<u8> {
    fn ramps(channels: usize) -> Vec<u16> {
        let mut out = Vec::new();
        for _ in 0..channels {
            out.push(0);
            out.push(65535);
        }
        out
    }
    let mut to_cmyk = Vec::new();
    for l in 0..2u16 {
        for a in 0..2u16 {
            for b in 0..2u16 {
                to_cmyk.extend_from_slice(&[a * 30000, b * 30000, (1 - l) * 20000, (1 - l) * 65535]);
            }
        }
    }
    let mut to_lab = Vec::new();
    for c in 0..2u16 {
        for m in 0..2u16 {
            for y in 0..2u16 {
                for k in 0..2u16 {
                    let light = 65535 - (c + m + y + k) * 16000;
                    to_lab.extend_from_slice(&[light, 32768, 32768]);
                }
            }
        }
    }
    let b_to_a = LutWarehouse::Lut(LutDataType {
        num_input_channels: 3,
        num_output_channels: 4,
        num_clut_grid_points: 2,
        matrix: Matrix3d::IDENTITY,
        num_input_table_entries: 2,
        num_output_table_entries: 2,
        input_table: LutStore::Store16(ramps(3)),
        clut_table: LutStore::Store16(to_cmyk),
        output_table: LutStore::Store16(ramps(4)),
        lut_type: LutType::Lut16,
    });
    let a_to_b = LutWarehouse::Lut(LutDataType {
        num_input_channels: 4,
        num_output_channels: 3,
        num_clut_grid_points: 2,
        matrix: Matrix3d::IDENTITY,
        num_input_table_entries: 2,
        num_output_table_entries: 2,
        input_table: LutStore::Store16(ramps(4)),
        clut_table: LutStore::Store16(to_lab),
        output_table: LutStore::Store16(ramps(3)),
        lut_type: LutType::Lut16,
    });
    let mut profile = ColorProfile::default();
    profile.profile_class = ProfileClass::OutputDevice;
    profile.color_space = DataColorSpace::Cmyk;
    profile.pcs = DataColorSpace::Lab;
    profile.lut_a_to_b_perceptual = Some(a_to_b.clone());
    profile.lut_a_to_b_colorimetric = Some(a_to_b);
    profile.lut_b_to_a_perceptual = Some(b_to_a.clone());
    profile.lut_b_to_a_colorimetric = Some(b_to_a);
    let bytes = profile.encode().unwrap();
    assert_eq!(ColorProfile::new_from_slice(&bytes).unwrap().color_space, DataColorSpace::Cmyk);
    bytes
}

#[test]
fn exports_cmyk_pdf_without_template_guides() {
    let icc_profile = synthetic_cmyk_profile();
    let job = two_up_job();
    let output = export_prepress_pdf(&job, &two_slot_artworks(), Some(&icc_profile)).unwrap();
    assert_eq!(output.plan.slots.len(), 2);
    assert!(output.pdf_bytes.starts_with(b"%PDF-1.7"));
    assert!(output
        .preflight
        .checks
        .iter()
        .any(|check| check.id == "color-conversion"
            && check.status == PlantPrepressPreflightStatus::Pass
            && check.detail.contains("moxcms")));
    let pdf_text = String::from_utf8_lossy(&output.pdf_bytes);
    assert!(pdf_text.contains("/ICCBased 8 0 R"));
    assert!(pdf_text.contains("/OutputIntents [7 0 R]"));
    assert!(pdf_text.contains("/Metadata 9 0 R"));
    assert!(pdf_text.contains("pdfxid:GTS_PDFXVersion"));
    assert!(!pdf_text.contains("left-bleed"));
    assert!(!pdf_text.contains("right-bleed"));
    assert!(!pdf_text.contains("left-hole"));
    assert!(!pdf_text.contains("right-hole"));
}

#[test]
fn exports_grayscale_pdf_with_output_intent() {
    let mut job = two_up_job();
    job.target.color_mode = Some("grayscale".to_string());
    job.target.icc_profile = Some("generic-gray-gamma-2.2.icc".to_string());
    job.target.output_condition_identifier = Some("Generic Gray Gamma 2.2".to_string());
    let gray_profile = moxcms::ColorProfile::new_gray_with_gamma(2.2).encode().unwrap();
    let output = export_prepress_pdf(&job, &two_slot_artworks(), Some(&gray_profile)).unwrap();
    assert_eq!(output.plan.color_mode, "grayscale");
    assert!(output
        .preflight
        .checks
        .iter()
        .any(|check| check.id == "output-intent" && check.status == PlantPrepressPreflightStatus::Pass));
    let pdf_text = String::from_utf8_lossy(&output.pdf_bytes);
    assert!(pdf_text.contains("/ICCBased 8 0 R"));
    assert!(pdf_text.contains("/N 1 /Alternate /DeviceGray"));
    assert!(!pdf_text.contains("/DeviceRGB"));
    // What the preflight vouches for: no guide ids, header, markers.
    assert!(output.pdf_bytes.starts_with(b"%PDF-1.7"));
    assert!(pdf_text.contains("/OutputIntents [7 0 R]"));
    assert!(pdf_text.contains("/Metadata 9 0 R"));
    assert!(pdf_text.contains("pdfxid:GTS_PDFXVersion"));
    assert!(!pdf_text.contains("left-bleed"));
    assert!(!pdf_text.contains("right-hole"));
    assert!(output.preflight.checks.iter().all(|c| c.status != PlantPrepressPreflightStatus::Fail));
}

#[test]
fn export_names_the_slot_whose_artwork_does_not_decode() {
    let job = two_up_job();
    let error = export_prepress_pdf(
        &job,
        &[
            PlantPrepressArtworkBytes { slot_id: "side_a".to_string(), bytes: b"not an image".to_vec() },
            PlantPrepressArtworkBytes {
                slot_id: "side_b".to_string(),
                bytes: solid_rgba_png(4, 4, [0, 0, 0, 255]),
            },
        ],
        None,
    )
    .unwrap_err();
    assert!(error.message().starts_with("failed to detect artwork format for slot side_a: "));
}

fn png_with_profile(rgba: &[u8], width: u32, height: u32, profile: Vec<u8>) -> Vec<u8> {
    let mut out = Vec::new();
    let mut encoder = PngEncoder::new(&mut out);
    encoder.set_icc_profile(profile).unwrap();
    encoder.write_image(rgba, width, height, ExtendedColorType::Rgba8).unwrap();
    out
}

#[test]
fn artwork_info_reads_the_decoded_size() {
    let info = record_prepress::artwork_info_from_bytes("s".to_string(), &solid_rgba_png(3, 2, [1, 2, 3, 255])).unwrap();
    assert_eq!((info.slot_id.as_str(), info.width_px, info.height_px), ("s", 3, 2));
    let error = record_prepress::artwork_info_from_bytes("s".to_string(), b"nope").unwrap_err();
    assert!(error.message().starts_with("failed to decode artwork: "));
}

#[test]
fn decoded_png_keeps_its_pixels_and_size() {
    let rgba = [1, 2, 3, 4, 5, 6, 7, 8];
    let art = record_prepress::DecodedArtwork::from_asset(&PlantPrepressArtworkBytes {
        slot_id: "a".to_string(),
        bytes: rgba_png(&rgba, 2, 1),
    })
    .unwrap();
    assert_eq!((art.width, art.height), (2, 1));
    assert_eq!(art.rgba, rgba.to_vec());
    assert_eq!(art.slot_id, "a");
}

#[test]
fn embedded_rgb_profiles_are_converted_to_srgb() {
    let rgba = [200, 40, 60, 255];
    let profile = moxcms::ColorProfile::new_adobe_rgb().encode().unwrap();
    let art = record_prepress::DecodedArtwork::from_asset(&PlantPrepressArtworkBytes {
        slot_id: "a".to_string(),
        bytes: png_with_profile(&rgba, 1, 1, profile),
    })
    .unwrap();
    assert_eq!(art.rgba.len(), 4);
    assert_ne!(art.rgba, rgba.to_vec());
}

#[test]
fn embedded_profiles_that_are_not_rgb_are_refused() {
    let profile = moxcms::ColorProfile::new_gray_with_gamma(2.2).encode().unwrap();
    let error = record_prepress::DecodedArtwork::from_asset(&PlantPrepressArtworkBytes {
        slot_id: "a".to_string(),
        bytes: png_with_profile(&[0, 0, 0, 255], 1, 1, profile),
    })
    .err()
    .unwrap();
    assert!(error.message().starts_with("source ICC profile for slot a must be RGB, got "));
}

#[test]
fn decoded_jpeg_keeps_its_size() {
    let mut bytes = Vec::new();
    let rgb = vec![90u8; 5 * 3 * 3];
    image::codecs::jpeg::JpegEncoder::new(&mut bytes)
        .write_image(&rgb, 5, 3, ExtendedColorType::Rgb8)
        .unwrap();
    let decoded = record_prepress::decode_artwork_rgba("a", &bytes).unwrap();
    assert_eq!((decoded.width, decoded.height), (5, 3));
    assert_eq!(decoded.rgba.len(), 5 * 3 * 4);
    assert!(decoded.icc_profile.is_none());
    let error = record_prepress::decode_artwork_rgba("a", &bytes[..20]).err().unwrap();
    assert!(error.message().starts_with("failed to decode JPEG artwork slot a: ")
        || error.message().starts_with("failed to read JPEG ICC profile for slot a: "));
}

#[test]
fn placements_come_in_sheet_order_whatever_the_guide_order() {
    let mut job = two_up_job();
    job.template.guides.swap(0, 1);
    job.template.guides.push(guide("low-bleed", GuideLayerKind::Bleed, 20_000, 80_000, 10_000));
    let placements = record_prepress::artwork_placements(&job.template);
    let xy: Vec<(i64, i64)> = placements.iter().map(|p| (p.x_um, p.y_um)).collect();
    assert_eq!(xy, vec![(2_000, 2_000), (112_000, 2_000), (10_000, 70_000)]);
}

#[test]
fn preflight_of_foreign_bytes_fails_its_structural_checks() {
    let (job, plan, _) = two_up_plan_and_preflight();
    let report = record_prepress::build_preflight_report(&job, &plan, b"not a pdf left-hole", 4, Some(b"icc"), "method");
    let status = |id: &str| report.checks.iter().find(|c| c.id == id).unwrap().status;
    assert_eq!(report.checks.len(), 12);
    assert_eq!(status("pdf-header"), PlantPrepressPreflightStatus::Fail);
    assert_eq!(status("output-intent"), PlantPrepressPreflightStatus::Fail);
    assert_eq!(status("pdf-x-marker"), PlantPrepressPreflightStatus::Fail);
    assert_eq!(status("no-rgb-objects"), PlantPrepressPreflightStatus::Pass);
    assert_eq!(status("template-guides"), PlantPrepressPreflightStatus::Fail);
    assert_eq!(status("safety-area"), PlantPrepressPreflightStatus::Pass);
    let guides = report.checks.iter().find(|c| c.id == "template-guides").unwrap();
    assert_eq!(guides.detail, "Guide identifiers leaked into emitted PDF: left-hole");
    assert_eq!(report.checks[2].detail, "method");
    assert_eq!(
        report.checks[1].detail,
        "Lowest effective resolution is 317.5 ppi for a 300 ppi target."
    );
}

#[test]
fn pack_preflight_markdown_matches_the_jungle_pack_golden() {
    let (_, mut plan, _) = two_up_plan_and_preflight();
    plan.template_name = "12 in center label, A/B sheet".to_string();
    plan.output_condition_identifier = "FOGRA39".to_string();
    let checks = vec![
        ("slot-count", "Artwork slot count matches template placements", "2 artwork slot(s) mapped to print placement(s)."),
        ("image-resolution", "Artwork resolution meets target DPI", "Lowest effective resolution is 300.5 ppi for a 300 ppi target."),
        ("color-conversion", "Final raster is converted through the exporter color pipeline", "sRGB raster converted to target CMYK ICC with moxcms"),
        ("output-intent", "PDF embeds an ICC output intent", "Embedded 4 channel ICCBased image space and OutputIntent FOGRA39."),
        ("pdf-header", "PDF header is present", "Emitted file starts with %PDF-1.7."),
        ("pdf-boxes", "PDF boxes match template document size", "MediaBox, TrimBox, and BleedBox are 126.000 x 232.000 mm."),
        ("image-size", "Embedded raster dimensions match target DPI", "Embedded raster is 1489 x 2741 px at 300 ppi."),
        ("pdf-x-marker", "PDF/X markers and XMP metadata are present", "Emitted PDF declares pdf/x-4 in Info and XMP metadata."),
        ("no-rgb-objects", "No RGB PDF color objects are present", "The emitted PDF object text contains no DeviceRGB, CalRGB, or Lab color spaces."),
        ("template-guides", "Template guides are not written to the final PDF layer", "The final PDF contains one raster image XObject and no source guide object identifiers."),
        ("cutouts", "Cutout guide areas are masked in the final raster", "Template contains no explicit no-print cutout guides."),
        ("safety-area", "Safety clearance was confirmed before export", "2 safety area(s) were confirmed clear before plant-ready export."),
    ];
    let preflight = PlantPrepressPreflightReport {
        checks: checks
            .into_iter()
            .map(|(id, summary, detail)| PlantPrepressPreflightCheck {
                id: id.to_string(),
                status: PlantPrepressPreflightStatus::Pass,
                summary: summary.to_string(),
                detail: detail.to_string(),
            })
            .collect(),
    };
    let golden = "# Preflight

Template: 12 in center label, A/B sheet
Output condition: FOGRA39
Target: CMYK at 300 DPI

| Status | Check | Detail |
| --- | --- | --- |
| pass | Artwork slot count matches template placements | 2 artwork slot(s) mapped to print placement(s). |
| pass | Artwork resolution meets target DPI | Lowest effective resolution is 300.5 ppi for a 300 ppi target. |
| pass | Final raster is converted through the exporter color pipeline | sRGB raster converted to target CMYK ICC with moxcms |
| pass | PDF embeds an ICC output intent | Embedded 4 channel ICCBased image space and OutputIntent FOGRA39. |
| pass | PDF header is present | Emitted file starts with %PDF-1.7. |
| pass | PDF boxes match template document size | MediaBox, TrimBox, and BleedBox are 126.000 x 232.000 mm. |
| pass | Embedded raster dimensions match target DPI | Embedded raster is 1489 x 2741 px at 300 ppi. |
| pass | PDF/X markers and XMP metadata are present | Emitted PDF declares pdf/x-4 in Info and XMP metadata. |
| pass | No RGB PDF color objects are present | The emitted PDF object text contains no DeviceRGB, CalRGB, or Lab color spaces. |
| pass | Template guides are not written to the final PDF layer | The final PDF contains one raster image XObject and no source guide object identifiers. |
| pass | Cutout guide areas are masked in the final raster | Template contains no explicit no-print cutout guides. |
| pass | Safety clearance was confirmed before export | 2 safety area(s) were confirmed clear before plant-ready export. |
";
    assert_eq!(pack_preflight_markdown(&plan, &preflight), golden);
}
