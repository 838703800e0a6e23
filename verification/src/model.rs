//! The job, template, plan and report types.
//!
//! Lengths are integer micrometres (0.001 mm): a template measured to the
//! micrometre is held exactly, and every pixel and point size derived from it
//! is computed exactly rather than through binary floating point.
use crate::text::{push_str, string_from_chars, to_string};
use vstd::prelude::*;

verus! {

/// A rectangle on the template sheet, in micrometres.
#[derive(Clone, Copy, Debug, PartialEq, Eq, Structural)]
pub struct RectUm {
    pub x: i32,
    pub y: i32,
    pub width: i32,
    pub height: i32,
}

/// A circle on the template sheet, in micrometres.
#[derive(Clone, Copy, Debug, PartialEq, Eq, Structural)]
pub struct CircleUm {
    pub cx: i32,
    pub cy: i32,
    pub radius: i32,
}

/// The shape a guide draws.
#[derive(Clone, Copy, Debug, PartialEq, Eq, Structural)]
pub enum GuideGeometry {
    Circle { circle: CircleUm },
    Rect { rect: RectUm },
    /// Geometry the prepress path does not place artwork on (lines, marks).
    Other,
}

/// What a template guide marks.
#[derive(Clone, Copy, Debug, PartialEq, Eq, Structural)]
pub enum GuideLayerKind {
    Bleed,
    Trim,
    Safety,
    Hole,
    Dink,
    Other,
}

/// One guide of a plant template.
#[derive(Clone, Debug, PartialEq, Eq)]
pub struct TemplateGuide {
    pub id: String,
    pub layer: GuideLayerKind,
    pub geometry: GuideGeometry,
}

/// The kind of printed part a template describes.
#[derive(Clone, Copy, Debug, PartialEq, Eq, Structural)]
pub enum RecordPlantTemplateKind {
    CenterLabel,
    PictureLabel,
    Insert,
    Other,
}

/// The print requirements a plant publishes with its template.
#[derive(Clone, Debug, PartialEq, Eq)]
pub struct PrintRequirements {
    pub accepted_formats: Vec<String>,
    pub color_modes: Vec<String>,
    pub min_raster_ppi: Option<u16>,
    pub keep_template_layer_out_of_final: bool,
    pub pdf_standard: Option<String>,
    pub output_condition_identifier: Option<String>,
}

/// A plant template: sheet size, guides and requirements.
#[derive(Clone, Debug, PartialEq, Eq)]
pub struct PlantTemplate {
    pub id: String,
    pub name: String,
    pub version: Option<String>,
    pub kind: RecordPlantTemplateKind,
    pub document: RectUm,
    pub guides: Vec<TemplateGuide>,
    pub requirements: PrintRequirements,
}

#[derive(Clone, Debug, PartialEq, Eq)]
pub struct PlantPrepressArtworkSlot {
    pub id: String,
    pub artwork_path: String,
    pub placement_index: Option<usize>,
}

#[derive(Clone, Debug, PartialEq, Eq)]
pub struct PlantPrepressTarget {
    pub dpi: Option<u16>,
    pub color_mode: Option<String>,
    pub icc_profile: Option<String>,
    pub source_rgb_profile: Option<String>,
    pub pdf_standard: Option<String>,
    pub output_condition_identifier: Option<String>,
}

#[derive(Clone, Copy, Debug, PartialEq, Eq, Structural)]
pub struct PlantPrepressSafetyClearance {
    pub confirmed: bool,
}

/// A prepress job: the template, one artwork slot per print placement, the
/// target settings and the safety-clearance confirmation.
#[derive(Clone, Debug, PartialEq, Eq)]
pub struct PlantPrepressJob {
    pub template: PlantTemplate,
    pub slots: Vec<PlantPrepressArtworkSlot>,
    pub target: PlantPrepressTarget,
    pub safety_clearance: PlantPrepressSafetyClearance,
}

/// The pixel size of a slot's decoded artwork.
#[derive(Clone, Debug, PartialEq, Eq)]
pub struct ArtworkInfo {
    pub slot_id: String,
    pub width_px: u32,
    pub height_px: u32,
}

/// A slot's encoded artwork file.
#[derive(Clone, Debug, PartialEq, Eq)]
pub struct PlantPrepressArtworkBytes {
    pub slot_id: String,
    pub bytes: Vec<u8>,
}

#[derive(Clone, Copy, Debug, PartialEq, Eq, Structural)]
pub enum PlantPrepressPlacementShape {
    Rect,
    Circle,
}

/// Where artwork (or a guide area) sits on the sheet, in micrometres.
#[derive(Clone, Copy, Debug, PartialEq, Eq, Structural)]
pub struct PlantPrepressPlacement {
    pub x_um: i64,
    pub y_um: i64,
    pub width_um: i64,
    pub height_um: i64,
    pub shape: PlantPrepressPlacementShape,
}

/// A validated slot: its placement and the artwork's effective resolution
/// there, in thousandths of a pixel per inch (rounded down), with whether
/// that resolution is exactly those thousandths.
#[derive(Clone, Debug, PartialEq, Eq)]
pub struct PlantPrepressSlotPlan {
    pub slot_id: String,
    pub artwork_path: String,
    pub placement_index: usize,
    pub placement: PlantPrepressPlacement,
    pub effective_ppi_milli: u64,
    pub effective_ppi_exact: bool,
}

/// A validated prepress plan.
#[derive(Clone, Debug, PartialEq, Eq)]
pub struct PlantPrepressPlan {
    pub template_id: String,
    pub template_version: Option<String>,
    pub template_name: String,
    pub page_width_um: i64,
    pub page_height_um: i64,
    pub page_width_px: u32,
    pub page_height_px: u32,
    pub target_dpi: u16,
    pub color_mode: String,
    pub source_rgb_profile: String,
    pub pdf_standard: String,
    pub icc_profile: String,
    pub output_condition_identifier: String,
    pub safety_clearance_confirmed: bool,
    pub slots: Vec<PlantPrepressSlotPlan>,
    pub bleed_areas: Vec<PlantPrepressPlacement>,
    pub trim_areas: Vec<PlantPrepressPlacement>,
    pub cutouts: Vec<PlantPrepressPlacement>,
    pub safety_areas: Vec<PlantPrepressPlacement>,
}

#[derive(Clone, Copy, Debug, PartialEq, Eq, Structural)]
pub enum PlantPrepressPreflightStatus {
    Pass,
    Warn,
    Fail,
}

#[derive(Clone, Debug, PartialEq, Eq)]
pub struct PlantPrepressPreflightCheck {
    pub id: String,
    pub status: PlantPrepressPreflightStatus,
    pub summary: String,
    pub detail: String,
}

#[derive(Clone, Debug, PartialEq, Eq)]
pub struct PlantPrepressPreflightReport {
    pub checks: Vec<PlantPrepressPreflightCheck>,
}

/// The exported plant-ready PDF with the plan and preflight it passed.
#[derive(Clone, Debug, PartialEq, Eq)]
pub struct PlantPrepressPdf {
    pub plan: PlantPrepressPlan,
    pub preflight: PlantPrepressPreflightReport,
    pub pdf_bytes: Vec<u8>,
}

/// The texts of a list of strings.
pub open spec fn texts(v: Seq<String>) -> Seq<Seq<char>> {
    v.map_values(|s: String| s@)
}

/// The text of an optional string.
pub open spec fn opt_text(o: Option<String>) -> Option<Seq<char>> {
    match o {
        Some(s) => Some(s@),
        None => None,
    }
}

/// Every issue that kept a job from validating.
#[derive(Clone, Debug, PartialEq, Eq)]
pub struct PlantPrepressValidationError {
    issues: Vec<String>,
}

impl PlantPrepressValidationError {
    pub closed spec fn spec_issues(&self) -> Seq<Seq<char>> {
        texts(self.issues@)
    }

    pub fn new(issues: Vec<String>) -> (e: Self)
        ensures
            e.spec_issues() == texts(issues@),
    {
        Self { issues }
    }

    pub fn issues(&self) -> (out: &[String])
        ensures
            texts(out@) == self.spec_issues(),
    {
        self.issues.as_slice()
    }

    /// The error's text: `plant prepress validation failed`, then each issue
    /// after `; `.
    pub fn to_string(&self) -> (out: String)
        ensures
            out@ == validation_message(self.spec_issues()),
    {
        let mut m: Vec<char> = Vec::new();
        push_str(&mut m, "plant prepress validation failed");
        let mut i: usize = 0;
        while i < self.issues.len()
            invariant
                i <= self.issues@.len(),
                m@ == validation_message(texts(self.issues@.take(i as int))),
            decreases self.issues@.len() - i,
        {
            push_str(&mut m, "; ");
            push_str(&mut m, self.issues[i].as_str());
            i = i + 1;
            assert(texts(self.issues@.take(i as int)).drop_last() =~= texts(self.issues@.take(i - 1)));
        }
        assert(self.issues@.take(i as int) =~= self.issues@);
        string_from_chars(m.as_slice())
    }
}

/// The issues joined after `; `, each with its separator in front.
pub open spec fn issue_suffix(issues: Seq<Seq<char>>) -> Seq<char>
    decreases issues.len(),
{
    if issues.len() == 0 {
        Seq::empty()
    } else {
        issue_suffix(issues.drop_last()) + "; "@ + issues.last()
    }
}

/// The text of a validation error with the given issues.
pub open spec fn validation_message(issues: Seq<Seq<char>>) -> Seq<char> {
    "plant prepress validation failed"@ + issue_suffix(issues)
}

/// A failed export, with the message that says why.
#[derive(Clone, Debug, PartialEq, Eq)]
pub struct PlantPrepressExportError {
    message: String,
}

impl PlantPrepressExportError {
    pub closed spec fn spec_message(&self) -> Seq<char> {
        self.message@
    }

    pub fn new(message: String) -> (e: Self)
        ensures
            e.spec_message() == message@,
    {
        Self { message }
    }

    pub fn message(&self) -> (out: &str)
        ensures
            out@ == self.spec_message(),
    {
        self.message.as_str()
    }

    /// The error's text, its message.
    pub fn to_string(&self) -> (out: String)
        ensures
            out@ == self.spec_message(),
    {
        to_string(self.message.as_str())
    }

    /// An export that failed validation: the validation error's text.
    pub fn from_validation(error: PlantPrepressValidationError) -> (e: Self)
        ensures
            e.spec_message() == validation_message(error.spec_issues()),
    {
        Self { message: error.to_string() }
    }
}

} // verus!
