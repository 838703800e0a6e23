//! Plant-ready prepress for record labels: a job is validated against its
//! plant template and the sizes of its artwork, the artwork is rendered onto
//! the template's sheet, converted to the plant's colour space and written
//! as a PDF/X file that must pass its own preflight; a proof PDF, the
//! preflight report, the plant's README and a store-only ZIP make up the
//! manufacturing pack.
use vstd::prelude::*;

pub mod text;
pub mod zip;
pub mod model;
pub mod geometry;
pub mod plan;
pub mod escape;
pub mod pdf;
pub mod codec;
pub mod numbers;
pub mod preflight;
pub mod pack;
pub mod writers;
pub mod raster;
pub mod export;
pub mod native;
pub mod cli;
pub mod laws;

pub use crate::escape::{escape_pdf_string, escape_pdf_text, escape_xml_text, pack_markdown_cell};
pub use crate::export::{
    artwork_info_from_bytes, decode_artwork_rgba, export_decoded, export_prepress_pdf,
    normalize_rgba_to_srgb, rgb_to_target_cmyk,
};
pub use crate::geometry::{artwork_placements, effective_ppi, effective_ppi_is_exact, mm_to_px, mm_to_px_offset};
pub use crate::model::{
    ArtworkInfo, CircleUm, GuideGeometry, GuideLayerKind, PlantPrepressArtworkBytes,
    PlantPrepressArtworkSlot, PlantPrepressExportError, PlantPrepressJob, PlantPrepressPdf,
    PlantPrepressPlacement, PlantPrepressPlacementShape, PlantPrepressPlan,
    PlantPrepressPreflightCheck, PlantPrepressPreflightReport, PlantPrepressPreflightStatus,
    PlantPrepressSafetyClearance, PlantPrepressSlotPlan, PlantPrepressTarget,
    PlantPrepressValidationError, PlantTemplate, PrintRequirements, RecordPlantTemplateKind, RectUm,
    TemplateGuide,
};
pub use crate::pack::{
    pack_preflight_markdown, pack_preflight_status_label, pack_readme, PACK_PLANT_READY_PDF_NAME,
    PACK_PREFLIGHT_MARKDOWN_NAME, PACK_PROOF_PDF_NAME, PACK_README_NAME, PACK_SPEC_JSON_NAME,
};
pub use crate::plan::{build_prepress_plan, normalize_color_requirement, target_dpi};
pub use crate::preflight::{build_preflight_report, preflight_check};
pub use crate::raster::{
    checked_image_len, cover_crop, mask_cutouts, rasterize_prepress_page, resize_cover_rgba, rgb_to_grayscale,
    DecodedArtwork,
};
pub use crate::writers::{proof_pdf_from_jpeg, write_prepress_pdf, xmp_metadata};
pub use crate::zip::{pack_zip_archive, zip_crc32};

verus! {

} // verus!
