//! Job validation: from a job and its artwork sizes to a prepress plan, or
//! to every issue that stands in the way.
use crate::geometry::{
    artwork_placements, effective_ppi, effective_ppi_is_exact, guide_layer_placements, mm_to_px,
    spec_artwork_placements, spec_effective_ppi_exact, spec_effective_ppi_milli, spec_guide_layer_placements,
    spec_mm_to_px, spec_template_cutouts, template_cutouts, template_safety_areas,
};
use crate::model::{
    opt_text, texts, ArtworkInfo, GuideLayerKind, PlantPrepressJob, PlantPrepressPlacement,
    PlantPrepressPlan, PlantPrepressSlotPlan, PlantPrepressValidationError, PlantTemplate,
};
use crate::text::{
    ascii_lower, ascii_lower_chars, chars_eq, chars_eq_str, chars_of, decimal, plural,
    push_chars, push_decimal, push_decimal_wide, push_plural, push_str, starts_with_chars, string_from_chars, trim,
    trim_chars, trim_str,
};
use vstd::prelude::*;

verus! {

/// The resolution used when neither the job nor the template names one, and
/// the least any job is exported at.
pub const DEFAULT_TARGET_DPI: u16 = 300;

/// The text of an optional string, or `default` when it is absent.
pub open spec fn text_or(o: Option<String>, default: Seq<char>) -> Seq<char> {
    match o {
        Some(s) => s@,
        None => default,
    }
}

/// The trimmed text of an optional string, when that is not empty.
pub open spec fn trimmed_nonempty(o: Option<String>) -> Option<Seq<char>> {
    match o {
        Some(s) => if trim(s@).len() > 0 { Some(trim(s@)) } else { None },
        None => None,
    }
}

/// The job's colour mode: the target's, else CMYK; trimmed and lower-cased.
pub open spec fn spec_color_mode(job: PlantPrepressJob) -> Seq<char> {
    ascii_lower(trim(text_or(job.target.color_mode, "CMYK"@)))
}

/// The source RGB profile: the target's, else sRGB; trimmed and lower-cased,
/// with the spellings of sRGB (and the empty name) read as `srgb`.
pub open spec fn spec_source_rgb_profile(job: PlantPrepressJob) -> Seq<char> {
    let v = ascii_lower(trim(text_or(job.target.source_rgb_profile, "sRGB"@)));
    if v.len() == 0 || v == "srgb"@ || v == "s-rgb"@ || v == "s rgb"@ {
        "srgb"@
    } else {
        v
    }
}

/// The PDF standard: the target's, else the template's, else PDF/X-4;
/// trimmed and lower-cased.
pub open spec fn spec_pdf_standard(job: PlantPrepressJob) -> Seq<char> {
    let chosen = match job.target.pdf_standard {
        Some(s) => s@,
        None => text_or(job.template.requirements.pdf_standard, "PDF/X-4"@),
    };
    ascii_lower(trim(chosen))
}

/// A colour-mode name as a plant writes it, read as `cmyk`, `grayscale`, or
/// itself (trimmed, lower-cased).
pub open spec fn spec_normalize_color_requirement(value: Seq<char>) -> Seq<char> {
    let n = ascii_lower(trim(value));
    if n == "cmyk"@ || n == "process cmyk"@ || n == "process color"@ || n == "process colour"@ {
        "cmyk"@
    } else if n == "gray"@ || n == "grey"@ || n == "grayscale"@ || n == "greyscale"@ {
        "grayscale"@
    } else {
        n
    }
}

/// Whether an accepted-format name means PDF.
pub open spec fn is_pdf_format(value: Seq<char>) -> bool {
    let n = ascii_lower(trim(value));
    n == "pdf"@ || ("pdf/"@.len() <= n.len() && n.take(4) == "pdf/"@)
}

/// Whether the template accepts PDF output.
pub open spec fn spec_template_accepts_pdf(template: PlantTemplate) -> bool {
    exists|i: int|
        0 <= i < template.requirements.accepted_formats@.len() && #[trigger] is_pdf_format(
            template.requirements.accepted_formats@[i]@,
        )
}

/// Whether the template lists `mode` among its colour modes.
pub open spec fn spec_template_accepts_color_mode(template: PlantTemplate, mode: Seq<char>) -> bool {
    exists|i: int|
        0 <= i < template.requirements.color_modes@.len()
            && #[trigger] spec_normalize_color_requirement(
            template.requirements.color_modes@[i]@,
        ) == mode
}

/// The target resolution: the target's, else the template's minimum, else
/// 300; never below 300.
pub open spec fn spec_target_dpi(job: PlantPrepressJob) -> u16 {
    let chosen: u16 = match job.target.dpi {
        Some(d) => d,
        None => match job.template.requirements.min_raster_ppi {
            Some(d) => d,
            None => 300u16,
        },
    };
    if chosen > 300 {
        chosen
    } else {
        300u16
    }
}

/// The ICC profile name: the target's, trimmed, or empty.
pub open spec fn spec_icc_profile(job: PlantPrepressJob) -> Seq<char> {
    match trimmed_nonempty(job.target.icc_profile) {
        Some(s) => s,
        None => Seq::empty(),
    }
}

/// The output condition: the target's, else the template's, else the ICC
/// profile name.
pub open spec fn spec_output_condition(job: PlantPrepressJob) -> Seq<char> {
    match trimmed_nonempty(job.target.output_condition_identifier) {
        Some(s) => s,
        None => match trimmed_nonempty(job.template.requirements.output_condition_identifier) {
            Some(s) => s,
            None => spec_icc_profile(job),
        },
    }
}

pub open spec fn msg_slot_count(placements: nat, slots: nat) -> Seq<char> {
    "template has "@ + decimal(placements) + " print slot"@ + plural(placements)
        + " but job provides "@ + decimal(slots) + " artwork slot"@ + plural(slots)
}

pub open spec fn msg_color_mode(mode: Seq<char>) -> Seq<char> {
    "plant-ready export target colorMode must be CMYK or grayscale, got "@ + mode
}

pub open spec fn msg_color_mode_not_listed(mode: Seq<char>) -> Seq<char> {
    "template requirements do not list "@ + mode + " as an accepted color mode"@
}

pub open spec fn msg_source_profile(profile: Seq<char>) -> Seq<char> {
    "plant-ready export currently supports sRGB source compositing only, got target.sourceRgbProfile "@
        + profile
}

pub open spec fn msg_pdf_standard(standard: Seq<char>) -> Seq<char> {
    "plant-ready export requires a PDF/X target standard, got "@ + standard
}

pub open spec fn msg_safety(areas: nat) -> Seq<char> {
    "plant-ready export requires safetyClearance.confirmed for "@ + decimal(areas)
        + " template safety area"@ + plural(areas)
}

/// The issues that concern the job as a whole, in the order they are checked.
pub open spec fn spec_job_issues(job: PlantPrepressJob) -> Seq<Seq<char>> {
    let t = job.template;
    let placements = spec_artwork_placements(t);
    let mode = spec_color_mode(job);
    let safety = spec_guide_layer_placements(t, GuideLayerKind::Safety);
    let i0: Seq<Seq<char>> = Seq::empty();
    let i1 = if trim(t.id@).len() == 0 { i0.push("template id is required"@) } else { i0 };
    let i2 = if !(t.document.width > 0 && t.document.height > 0) {
        i1.push("template document width/height must be positive"@)
    } else {
        i1
    };
    let i3 = if placements.len() == 0 {
        i2.push("template has no supported bleed/trim placement geometry"@)
    } else {
        i2
    };
    let i4 = if job.slots@.len() != placements.len() {
        i3.push(msg_slot_count(placements.len(), job.slots@.len()))
    } else {
        i3
    };
    let i5 = if mode != "cmyk"@ && mode != "grayscale"@ {
        i4.push(msg_color_mode(mode))
    } else {
        i4
    };
    let i6 = if spec_icc_profile(job).len() == 0 {
        i5.push("plant-ready PDF export requires target.iccProfile"@)
    } else {
        i5
    };
    let i7 = if !spec_template_accepts_pdf(t) {
        i6.push("plant-ready export requires a template that accepts PDF output"@)
    } else {
        i6
    };
    let i8 = if !spec_template_accepts_color_mode(t, mode) {
        i7.push(msg_color_mode_not_listed(mode))
    } else {
        i7
    };
    let i9 = if !t.requirements.keep_template_layer_out_of_final {
        i8.push(
            "template requirements must state template/guide layers are kept out of final export"@,
        )
    } else {
        i8
    };
    let i10 = if spec_source_rgb_profile(job) != "srgb"@ {
        i9.push(msg_source_profile(spec_source_rgb_profile(job)))
    } else {
        i9
    };
    let pdf = spec_pdf_standard(job);
    let i11 = if !("pdf/x"@.len() <= pdf.len() && pdf.take(5) == "pdf/x"@) {
        i10.push(msg_pdf_standard(pdf))
    } else {
        i10
    };
    if safety.len() > 0 && !job.safety_clearance.confirmed {
        i11.push(msg_safety(safety.len()))
    } else {
        i11
    }
}

/// The size information last given for `slot_id`.
pub open spec fn last_info(infos: Seq<ArtworkInfo>, slot_id: Seq<char>) -> Option<ArtworkInfo>
    decreases infos.len(),
{
    if infos.len() == 0 {
        None
    } else if infos.last().slot_id@ == slot_id {
        Some(infos.last())
    } else {
        last_info(infos.drop_last(), slot_id)
    }
}

/// A validated slot, as plain values: id, artwork path, placement index,
/// placement and effective resolution (milli-ppi).
pub type SlotModel = (Seq<char>, Seq<char>, usize, PlantPrepressPlacement, nat, bool);

pub open spec fn slot_model(p: PlantPrepressSlotPlan) -> SlotModel {
    (p.slot_id@, p.artwork_path@, p.placement_index, p.placement, p.effective_ppi_milli as nat, p.effective_ppi_exact)
}

pub open spec fn msg_no_id(index: nat) -> Seq<char> {
    "artwork slot "@ + decimal(index) + " has no id"@
}

pub open spec fn msg_no_path(id: Seq<char>) -> Seq<char> {
    "artwork slot "@ + id + " has no artworkPath"@
}

pub open spec fn msg_bad_index(id: Seq<char>, index: nat, placements: nat) -> Seq<char> {
    "artwork slot "@ + id + " references placementIndex "@ + decimal(index)
        + ", but template only has "@ + decimal(placements) + " placement"@ + plural(placements)
}

pub open spec fn msg_duplicate(index: nat) -> Seq<char> {
    "multiple artwork slots target placementIndex "@ + decimal(index)
}

pub open spec fn msg_missing_info(id: Seq<char>) -> Seq<char> {
    "artwork dimensions missing for slot "@ + id
}

/// A resolution, given by its thousandths of a ppi (rounded down) and
/// whether it is exactly those, to the nearest tenth: a resolution exactly
/// halfway between two tenths goes to the even one; any other rounds to the
/// nearer.
pub open spec fn ppi_tenths(milli: nat, exact: bool) -> nat {
    if exact && milli % 100 == 50 {
        let t = milli / 100;
        if t % 2 == 0 { t } else { t + 1 }
    } else {
        (milli + 50) / 100
    }
}

/// A resolution printed to one decimal place.
pub open spec fn ppi_one_decimal(milli: nat, exact: bool) -> Seq<char> {
    let tenths = ppi_tenths(milli, exact);
    decimal(tenths / 10) + "."@ + decimal(tenths % 10)
}

pub open spec fn msg_low_ppi(id: Seq<char>, milli: nat, exact: bool, target: nat) -> Seq<char> {
    "artwork slot "@ + id + " is "@ + ppi_one_decimal(milli, exact) + " ppi at placed size, below target "@
        + decimal(target) + " ppi"@
}

/// What the slot pass has found so far: issues, placement indices taken,
/// validated slots.
pub type SlotPass = (Seq<Seq<char>>, Set<int>, Seq<SlotModel>);

/// One slot of the slot pass.
pub open spec fn slot_step(job: PlantPrepressJob, infos: Seq<ArtworkInfo>, i: int, state: SlotPass) -> SlotPass {
    let placements = spec_artwork_placements(job.template);
    let target = spec_target_dpi(job);
    let slot = job.slots@[i];
    let id = trim(slot.id@);
    let (issues, used, plans) = state;
    if id.len() == 0 {
        (issues.push(msg_no_id(i as nat)), used, plans)
    } else {
        let issues1 = if trim(slot.artwork_path@).len() == 0 {
            issues.push(msg_no_path(id))
        } else {
            issues
        };
        let pi: usize = match slot.placement_index {
            Some(p) => p,
            None => i as usize,
        };
        if pi >= placements.len() {
            (issues1.push(msg_bad_index(id, pi as nat, placements.len())), used, plans)
        } else if used.contains(pi as int) {
            (issues1.push(msg_duplicate(pi as nat)), used, plans)
        } else {
            let used1 = used.insert(pi as int);
            match last_info(infos, id) {
                None => (issues1.push(msg_missing_info(id)), used1, plans),
                Some(info) => {
                    let placement = placements[pi as int];
                    let ppi = spec_effective_ppi_milli(
                        info.width_px as nat,
                        info.height_px as nat,
                        placement,
                    );
                    let exact = spec_effective_ppi_exact(info.width_px as nat, info.height_px as nat, placement);
                    let issues2 = if ppi < (target as nat) * 1000 {
                        issues1.push(msg_low_ppi(id, ppi, exact, target as nat))
                    } else {
                        issues1
                    };
                    (issues2, used1, plans.push((id, slot.artwork_path@, pi, placement, ppi, exact)))
                },
            }
        }
    }
}

/// The slot pass over the first `n` slots.
pub open spec fn slot_pass(job: PlantPrepressJob, infos: Seq<ArtworkInfo>, n: nat) -> SlotPass
    decreases n,
{
    if n == 0 {
        (Seq::empty(), Set::empty(), Seq::empty())
    } else {
        slot_step(job, infos, n - 1, slot_pass(job, infos, (n - 1) as nat))
    }
}

/// Every issue with the job, in the order the validator reports them.
pub open spec fn spec_plan_issues(job: PlantPrepressJob, infos: Seq<ArtworkInfo>) -> Seq<Seq<char>> {
    spec_job_issues(job) + slot_pass(job, infos, job.slots@.len()).0
}

/// The plan a job with no issues yields.
pub open spec fn plan_matches(plan: PlantPrepressPlan, job: PlantPrepressJob, infos: Seq<ArtworkInfo>) -> bool {
    let t = job.template;
    let dpi = spec_target_dpi(job);
    &&& plan.template_id@ == t.id@
    &&& opt_text(plan.template_version) == opt_text(t.version)
    &&& plan.template_name@ == t.name@
    &&& plan.page_width_um == t.document.width as i64
    &&& plan.page_height_um == t.document.height as i64
    &&& plan.page_width_px == spec_mm_to_px(t.document.width as int, dpi as nat)
    &&& plan.page_height_px == spec_mm_to_px(t.document.height as int, dpi as nat)
    &&& plan.target_dpi == dpi
    &&& plan.color_mode@ == spec_color_mode(job)
    &&& plan.source_rgb_profile@ == spec_source_rgb_profile(job)
    &&& plan.pdf_standard@ == spec_pdf_standard(job)
    &&& plan.icc_profile@ == spec_icc_profile(job)
    &&& plan.output_condition_identifier@ == spec_output_condition(job)
    &&& plan.safety_clearance_confirmed == job.safety_clearance.confirmed
    &&& plan.slots@.map_values(|p: PlantPrepressSlotPlan| slot_model(p)) == slot_pass(
        job,
        infos,
        job.slots@.len(),
    ).2
    &&& plan.bleed_areas@ == spec_guide_layer_placements(t, GuideLayerKind::Bleed)
    &&& plan.trim_areas@ == spec_guide_layer_placements(t, GuideLayerKind::Trim)
    &&& plan.cutouts@ == spec_template_cutouts(t)
    &&& plan.safety_areas@ == spec_guide_layer_placements(t, GuideLayerKind::Safety)
}

/// The target resolution of a job.
pub fn target_dpi(job: &PlantPrepressJob) -> (dpi: u16)
    ensures
        dpi == spec_target_dpi(*job),
{
    let chosen: u16 = match job.target.dpi {
        Some(d) => d,
        None => match job.template.requirements.min_raster_ppi {
            Some(d) => d,
            None => DEFAULT_TARGET_DPI,
        },
    };
    if chosen > DEFAULT_TARGET_DPI {
        chosen
    } else {
        DEFAULT_TARGET_DPI
    }
}

fn text_or_exec(o: &Option<String>, default: &str) -> (out: Vec<char>)
    ensures
        out@ == text_or(*o, default@),
{
    match o {
        Some(s) => chars_of(s.as_str()),
        None => chars_of(default),
    }
}

fn trimmed_nonempty_exec(o: &Option<String>) -> (out: Option<Vec<char>>)
    ensures
        match out {
            Some(v) => trimmed_nonempty(*o) == Some(v@),
            None => trimmed_nonempty(*o) is None,
        },
{
    match o {
        Some(s) => {
            let t = trim_str(s.as_str());
            if t.len() > 0 {
                Some(t)
            } else {
                None
            }
        },
        None => None,
    }
}

fn normalized_color_mode(job: &PlantPrepressJob) -> (out: Vec<char>)
    ensures
        out@ == spec_color_mode(*job),
{
    let raw = text_or_exec(&job.target.color_mode, "CMYK");
    proof {
        reveal_strlit("CMYK");
    }
    let t = trim_chars(raw.as_slice());
    ascii_lower_chars(t.as_slice())
}

fn normalized_source_rgb_profile(job: &PlantPrepressJob) -> (out: Vec<char>)
    ensures
        out@ == spec_source_rgb_profile(*job),
{
    let raw = text_or_exec(&job.target.source_rgb_profile, "sRGB");
    let t = trim_chars(raw.as_slice());
    let v = ascii_lower_chars(t.as_slice());
    if v.len() == 0 || chars_eq_str(v.as_slice(), "srgb") || chars_eq_str(v.as_slice(), "s-rgb")
        || chars_eq_str(v.as_slice(), "s rgb") {
        chars_of("srgb")
    } else {
        v
    }
}

fn normalized_pdf_standard(job: &PlantPrepressJob) -> (out: Vec<char>)
    ensures
        out@ == spec_pdf_standard(*job),
{
    let raw = match &job.target.pdf_standard {
        Some(s) => chars_of(s.as_str()),
        None => text_or_exec(&job.template.requirements.pdf_standard, "PDF/X-4"),
    };
    let t = trim_chars(raw.as_slice());
    ascii_lower_chars(t.as_slice())
}

/// A colour-mode name as a plant writes it, normalized.
pub fn normalize_color_requirement(value: &str) -> (out: String)
    ensures
        out@ == spec_normalize_color_requirement(value@),
{
    let out = normalize_color_requirement_chars(value);
    string_from_chars(out.as_slice())
}

fn normalize_color_requirement_chars(value: &str) -> (out: Vec<char>)
    ensures
        out@ == spec_normalize_color_requirement(value@),
{
    let t = trim_str(value);
    let n = ascii_lower_chars(t.as_slice());
    let s = n.as_slice();
    if chars_eq_str(s, "cmyk") || chars_eq_str(s, "process cmyk") || chars_eq_str(
        s,
        "process color",
    ) || chars_eq_str(s, "process colour") {
        chars_of("cmyk")
    } else if chars_eq_str(s, "gray") || chars_eq_str(s, "grey") || chars_eq_str(s, "grayscale")
        || chars_eq_str(s, "greyscale") {
        chars_of("grayscale")
    } else {
        n
    }
}

fn is_pdf_format_exec(value: &str) -> (r: bool)
    ensures
        r == is_pdf_format(value@),
{
    let t = trim_str(value);
    let n = ascii_lower_chars(t.as_slice());
    let prefix = chars_of("pdf/");
    proof {
        reveal_strlit("pdf/");
    }
    let r = chars_eq_str(n.as_slice(), "pdf") || starts_with_chars(n.as_slice(), prefix.as_slice());
    r
}

/// Whether the template accepts PDF output.
fn template_accepts_pdf(template: &PlantTemplate) -> (r: bool)
    ensures
        r == spec_template_accepts_pdf(*template),
{
    let formats = &template.requirements.accepted_formats;
    let mut i: usize = 0;
    while i < formats.len()
        invariant
            i <= formats@.len(),
            formats@ == template.requirements.accepted_formats@,
            forall|k: int| 0 <= k < i ==> !#[trigger] is_pdf_format(formats@[k]@),
        decreases formats@.len() - i,
    {
        if is_pdf_format_exec(formats[i].as_str()) {
            return true;
        }
        i = i + 1;
    }
    false
}

/// Whether the template lists `mode` among its colour modes.
fn template_accepts_color_mode(template: &PlantTemplate, mode: &[char]) -> (r: bool)
    ensures
        r == spec_template_accepts_color_mode(*template, mode@),
{
    let modes = &template.requirements.color_modes;
    let mut i: usize = 0;
    while i < modes.len()
        invariant
            i <= modes@.len(),
            modes@ == template.requirements.color_modes@,
            forall|k: int|
                0 <= k < i ==> #[trigger] spec_normalize_color_requirement(modes@[k]@) != mode@,
        decreases modes@.len() - i,
    {
        let n = normalize_color_requirement_chars(modes[i].as_str());
        if chars_eq(n.as_slice(), mode) {
            return true;
        }
        i = i + 1;
    }
    false
}

} // verus!

verus! {

fn push_issue(issues: &mut Vec<String>, msg: &Vec<char>)
    ensures
        texts(final(issues)@) == texts(old(issues)@).push(msg@),
{
    let s = string_from_chars(msg.as_slice());
    issues.push(s);
    assert(texts(issues@) =~= texts(old(issues)@).push(msg@));
}

fn msg_slot_count_exec(placements: usize, slots: usize) -> (out: Vec<char>)
    ensures
        out@ == msg_slot_count(placements as nat, slots as nat),
{
    let mut out: Vec<char> = Vec::new();
    push_str(&mut out, "template has ");
    push_decimal(&mut out, placements as u64);
    push_str(&mut out, " print slot");
    push_plural(&mut out, placements);
    push_str(&mut out, " but job provides ");
    push_decimal(&mut out, slots as u64);
    push_str(&mut out, " artwork slot");
    push_plural(&mut out, slots);
    out
}

fn msg_with_prefix(prefix: &str, middle: &[char], suffix: &str) -> (out: Vec<char>)
    ensures
        out@ == prefix@ + middle@ + suffix@,
{
    let mut out: Vec<char> = Vec::new();
    push_str(&mut out, prefix);
    push_chars(&mut out, middle);
    push_str(&mut out, suffix);
    out
}

fn msg_safety_exec(areas: usize) -> (out: Vec<char>)
    ensures
        out@ == msg_safety(areas as nat),
{
    let mut out: Vec<char> = Vec::new();
    push_str(&mut out, "plant-ready export requires safetyClearance.confirmed for ");
    push_decimal(&mut out, areas as u64);
    push_str(&mut out, " template safety area");
    push_plural(&mut out, areas);
    out
}

fn literal(s: &str) -> (out: Vec<char>)
    ensures
        out@ == s@,
{
    chars_of(s)
}

/// The issues that concern the job as a whole.
fn job_issues(job: &PlantPrepressJob) -> (issues: Vec<String>)
    ensures
        texts(issues@) == spec_job_issues(*job),
{
    let t = &job.template;
    let placements = artwork_placements(t);
    let safety = template_safety_areas(t);
    let mode = normalized_color_mode(job);
    let source = normalized_source_rgb_profile(job);
    let pdf = normalized_pdf_standard(job);
    let mut issues: Vec<String> = Vec::new();
    assert(texts(issues@) =~= Seq::<Seq<char>>::empty());
    if trim_str(t.id.as_str()).len() == 0 {
        push_issue(&mut issues, &literal("template id is required"));
    }
    if !(t.document.width > 0 && t.document.height > 0) {
        push_issue(&mut issues, &literal("template document width/height must be positive"));
    }
    if placements.len() == 0 {
        push_issue(&mut issues, &literal("template has no supported bleed/trim placement geometry"));
    }
    if job.slots.len() != placements.len() {
        push_issue(&mut issues, &msg_slot_count_exec(placements.len(), job.slots.len()));
    }
    if !chars_eq_str(mode.as_slice(), "cmyk") && !chars_eq_str(mode.as_slice(), "grayscale") {
        push_issue(
            &mut issues,
            &msg_with_prefix(
                "plant-ready export target colorMode must be CMYK or grayscale, got ",
                mode.as_slice(),
                "",
            ),
        );
        proof {
            reveal_strlit("");
        }
    }
    let icc_empty = match trimmed_nonempty_exec(&job.target.icc_profile) {
        Some(_) => false,
        None => true,
    };
    if icc_empty {
        push_issue(&mut issues, &literal("plant-ready PDF export requires target.iccProfile"));
    }
    if !template_accepts_pdf(t) {
        push_issue(
            &mut issues,
            &literal("plant-ready export requires a template that accepts PDF output"),
        );
    }
    if !template_accepts_color_mode(t, mode.as_slice()) {
        push_issue(
            &mut issues,
            &msg_with_prefix(
                "template requirements do not list ",
                mode.as_slice(),
                " as an accepted color mode",
            ),
        );
    }
    if !t.requirements.keep_template_layer_out_of_final {
        push_issue(
            &mut issues,
            &literal(
                "template requirements must state template/guide layers are kept out of final export",
            ),
        );
    }
    if !chars_eq_str(source.as_slice(), "srgb") {
        push_issue(
            &mut issues,
            &msg_with_prefix(
                "plant-ready export currently supports sRGB source compositing only, got target.sourceRgbProfile ",
                source.as_slice(),
                "",
            ),
        );
        proof {
            reveal_strlit("");
        }
    }
    let pdf_x = literal("pdf/x");
    proof {
        reveal_strlit("pdf/x");
    }
    if !starts_with_chars(pdf.as_slice(), pdf_x.as_slice()) {
        push_issue(
            &mut issues,
            &msg_with_prefix(
                "plant-ready export requires a PDF/X target standard, got ",
                pdf.as_slice(),
                "",
            ),
        );
        proof {
            reveal_strlit("");
        }
    }
    if safety.len() > 0 && !job.safety_clearance.confirmed {
        push_issue(&mut issues, &msg_safety_exec(safety.len()));
    }
    issues
}

} // verus!

verus! {

/// The index of the size information last given for `slot_id`.
fn last_info_exec(infos: &[ArtworkInfo], slot_id: &[char]) -> (r: Option<usize>)
    ensures
        match r {
            Some(k) => k < infos@.len() && last_info(infos@, slot_id@) == Some(infos@[k as int]),
            None => last_info(infos@, slot_id@) is None,
        },
{
    let mut j: usize = infos.len();
    assert(infos@.take(j as int) == infos@);
    while j > 0
        invariant
            j <= infos@.len(),
            last_info(infos@, slot_id@) == last_info(infos@.take(j as int), slot_id@),
        decreases j,
    {
        let id = chars_of(infos[j - 1].slot_id.as_str());
        assert(infos@.take(j as int).last() == infos@[j - 1]);
        assert(infos@.take(j as int).drop_last() == infos@.take(j - 1));
        if chars_eq(id.as_slice(), slot_id) {
            return Some(j - 1);
        }
        j = j - 1;
    }
    None
}

/// Appends a resolution with one decimal, given by its thousandths of a
/// ppi and whether it is exactly those.
pub fn push_ppi_one_decimal(out: &mut Vec<char>, milli: u64, exact: bool)
    ensures
        final(out)@ == old(out)@ + ppi_one_decimal(milli as nat, exact),
{
    let tenths: u128 = if exact && milli % 100 == 50 {
        let t: u128 = (milli as u128) / 100;
        if t % 2 == 0 { t } else { t + 1 }
    } else {
        ((milli as u128) + 50) / 100
    };
    push_decimal_wide(out, tenths / 10);
    push_str(out, ".");
    push_decimal_wide(out, tenths % 10);
}

fn msg_low_ppi_exec(id: &[char], milli: u64, exact: bool, target: u16) -> (out: Vec<char>)
    ensures
        out@ == msg_low_ppi(id@, milli as nat, exact, target as nat),
{
    let mut out: Vec<char> = Vec::new();
    push_str(&mut out, "artwork slot ");
    push_chars(&mut out, id);
    push_str(&mut out, " is ");
    push_ppi_one_decimal(&mut out, milli, exact);
    push_str(&mut out, " ppi at placed size, below target ");
    push_decimal(&mut out, target as u64);
    push_str(&mut out, " ppi");
    out
}

fn msg_no_id_exec(index: usize) -> (out: Vec<char>)
    ensures
        out@ == msg_no_id(index as nat),
{
    let mut out: Vec<char> = Vec::new();
    push_str(&mut out, "artwork slot ");
    push_decimal(&mut out, index as u64);
    push_str(&mut out, " has no id");
    out
}

fn msg_bad_index_exec(id: &[char], index: usize, placements: usize) -> (out: Vec<char>)
    ensures
        out@ == msg_bad_index(id@, index as nat, placements as nat),
{
    let mut out: Vec<char> = Vec::new();
    push_str(&mut out, "artwork slot ");
    push_chars(&mut out, id);
    push_str(&mut out, " references placementIndex ");
    push_decimal(&mut out, index as u64);
    push_str(&mut out, ", but template only has ");
    push_decimal(&mut out, placements as u64);
    push_str(&mut out, " placement");
    push_plural(&mut out, placements);
    out
}

fn msg_duplicate_exec(index: usize) -> (out: Vec<char>)
    ensures
        out@ == msg_duplicate(index as nat),
{
    let mut out: Vec<char> = Vec::new();
    push_str(&mut out, "multiple artwork slots target placementIndex ");
    push_decimal(&mut out, index as u64);
    out
}

/// The slot pass: validates each slot against the placements and sizes.
fn slot_pass_exec(
    job: &PlantPrepressJob,
    infos: &[ArtworkInfo],
    placements: &Vec<PlantPrepressPlacement>,
    target: u16,
    issues: &mut Vec<String>,
) -> (plans: Vec<PlantPrepressSlotPlan>)
    requires
        placements@ == spec_artwork_placements(job.template),
        target == spec_target_dpi(*job),
    ensures
        texts(final(issues)@) == texts(old(issues)@) + slot_pass(*job, infos@, job.slots@.len()).0,
        plans@.map_values(|p: PlantPrepressSlotPlan| slot_model(p)) == slot_pass(
            *job,
            infos@,
            job.slots@.len(),
        ).2,
{
    let ghost start = texts(issues@);
    let n = job.slots.len();
    let mut used: Vec<bool> = vec![false; placements.len()];
    let mut plans: Vec<PlantPrepressSlotPlan> = Vec::new();
    let mut i: usize = 0;
    assert(start + slot_pass(*job, infos@, 0).0 =~= start);
    while i < n
        invariant
            i <= n,
            n == job.slots@.len(),
            placements@ == spec_artwork_placements(job.template),
            target == spec_target_dpi(*job),
            used@.len() == placements@.len(),
            texts(issues@) == start + slot_pass(*job, infos@, i as nat).0,
            forall|k: int|
                0 <= k < used@.len() ==> (used@[k] <==> slot_pass(
                    *job,
                    infos@,
                    i as nat,
                ).1.contains(k)),
            plans@.map_values(|p: PlantPrepressSlotPlan| slot_model(p)) == slot_pass(
                *job,
                infos@,
                i as nat,
            ).2,
        decreases n - i,
    {
        let ghost before = slot_pass(*job, infos@, i as nat);
        let ghost after = slot_pass(*job, infos@, (i + 1) as nat);
        assert(after == slot_step(*job, infos@, i as int, before));
        let ghost issues_before = issues@;
        let ghost plans_before = plans@;
        let slot = &job.slots[i];
        let id = trim_str(slot.id.as_str());
        if id.len() == 0 {
            push_issue(issues, &msg_no_id_exec(i));
        } else {
            if trim_str(slot.artwork_path.as_str()).len() == 0 {
                push_issue(issues, &msg_with_prefix("artwork slot ", id.as_slice(), " has no artworkPath"));
            }
            let pi = match slot.placement_index {
                Some(p) => p,
                None => i,
            };
            if pi >= placements.len() {
                push_issue(issues, &msg_bad_index_exec(id.as_slice(), pi, placements.len()));
            } else if used[pi] {
                push_issue(issues, &msg_duplicate_exec(pi));
            } else {
                used.set(pi, true);
                match last_info_exec(infos, id.as_slice()) {
                    None => {
                        push_issue(
                            issues,
                            &msg_with_prefix("artwork dimensions missing for slot ", id.as_slice(), ""),
                        );
                        proof {
                            reveal_strlit("");
                        }
                    },
                    Some(k) => {
                        let placement = placements[pi];
                        let ppi = effective_ppi(&infos[k], placement);
                        let exact = effective_ppi_is_exact(&infos[k], placement);
                        if ppi < (target as u64) * 1000 {
                            push_issue(issues, &msg_low_ppi_exec(id.as_slice(), ppi, exact, target));
                        }
                        let plan = PlantPrepressSlotPlan {
                            slot_id: string_from_chars(id.as_slice()),
                            artwork_path: slot.artwork_path.clone(),
                            placement_index: pi,
                            placement,
                            effective_ppi_milli: ppi,
                            effective_ppi_exact: exact,
                        };
                        plans.push(plan);
                        assert(plans@.map_values(|p: PlantPrepressSlotPlan| slot_model(p))
                            =~= plans_before.map_values(|p: PlantPrepressSlotPlan| slot_model(p)).push(
                            slot_model(plan),
                        ));
                    },
                }
            }
        }
        i = i + 1;
    }
    plans
}

/// Validates a job against its template and the sizes of its artwork, and
/// builds the prepress plan: every slot mapped to its own placement, each
/// placed at no less than the target resolution. When anything is wrong the
/// error lists every issue, in the order they are checked.
pub fn build_prepress_plan(job: &PlantPrepressJob, artwork_infos: &[ArtworkInfo]) -> (res: Result<
    PlantPrepressPlan,
    PlantPrepressValidationError,
>)
    ensures
        match res {
            Ok(plan) => spec_plan_issues(*job, artwork_infos@).len() == 0 && plan_matches(
                plan,
                *job,
                artwork_infos@,
            ),
            Err(e) => spec_plan_issues(*job, artwork_infos@).len() > 0 && e.spec_issues()
                == spec_plan_issues(*job, artwork_infos@),
        },
{
    let t = &job.template;
    let bleed_areas = guide_layer_placements(t, GuideLayerKind::Bleed);
    let trim_areas = guide_layer_placements(t, GuideLayerKind::Trim);
    let placements = artwork_placements(t);
    let cutouts = template_cutouts(t);
    let safety_areas = template_safety_areas(t);
    let dpi = target_dpi(job);
    let mut issues = job_issues(job);
    let slots = slot_pass_exec(job, artwork_infos, &placements, dpi, &mut issues);
    if issues.len() > 0 {
        return Err(PlantPrepressValidationError::new(issues));
    }
    let color_mode = normalized_color_mode(job);
    let source = normalized_source_rgb_profile(job);
    let pdf = normalized_pdf_standard(job);
    let icc: Vec<char> = match trimmed_nonempty_exec(&job.target.icc_profile) {
        Some(v) => v,
        None => Vec::new(),
    };
    let condition: Vec<char> = match trimmed_nonempty_exec(&job.target.output_condition_identifier) {
        Some(v) => v,
        None => match trimmed_nonempty_exec(&t.requirements.output_condition_identifier) {
            Some(v) => v,
            None => icc.clone(),
        },
    };
    let version = match &t.version {
        Some(v) => Some(v.clone()),
        None => None,
    };
    Ok(
        PlantPrepressPlan {
            template_id: t.id.clone(),
            template_version: version,
            template_name: t.name.clone(),
            page_width_um: t.document.width as i64,
            page_height_um: t.document.height as i64,
            page_width_px: mm_to_px(t.document.width as i64, dpi),
            page_height_px: mm_to_px(t.document.height as i64, dpi),
            target_dpi: dpi,
            color_mode: string_from_chars(color_mode.as_slice()),
            source_rgb_profile: string_from_chars(source.as_slice()),
            pdf_standard: string_from_chars(pdf.as_slice()),
            icc_profile: string_from_chars(icc.as_slice()),
            output_condition_identifier: string_from_chars(condition.as_slice()),
            safety_clearance_confirmed: job.safety_clearance.confirmed,
            slots,
            bleed_areas,
            trim_areas,
            cutouts,
            safety_areas,
        },
    )
}

} // verus!
