//! The preflight report of an exported PDF.
use crate::codec::{from_utf8_lossy, utf8_lossy};
use crate::model::{
    PlantPrepressJob, PlantPrepressPlan, PlantPrepressPreflightCheck, PlantPrepressPreflightReport,
    PlantPrepressPreflightStatus, PlantPrepressSlotPlan, TemplateGuide,
};
use crate::numbers::{mm_three_decimals, push_mm_three_decimals, push_pdf_number, spec_pdf_number};
use crate::plan::ppi_one_decimal;
use crate::text::{
    chars_of, decimal, push_chars, push_decimal, push_str, string_from_chars, trim, trim_str,
};
use vstd::prelude::*;
use vstd::utf8::encode_utf8;

verus! {

/// Whether `needle` occurs in `hay` at `k`.
pub open spec fn occurs_at(hay: Seq<char>, needle: Seq<char>, k: int) -> bool {
    &&& 0 <= k
    &&& k + needle.len() <= hay.len()
    &&& hay.subrange(k, k + needle.len()) == needle
}

/// Whether `needle` occurs anywhere in `hay`.
pub open spec fn text_contains(hay: Seq<char>, needle: Seq<char>) -> bool {
    exists|k: int| #[trigger] occurs_at(hay, needle, k)
}

/// Whether the PDF's text (its bytes decoded lossily as UTF-8) holds `text`.
pub open spec fn pdf_has(pdf: Seq<u8>, text: Seq<char>) -> bool {
    text_contains(utf8_lossy(pdf), text)
}

/// A PDF's bytes decoded lossily as UTF-8, the text its checks search.
pub(crate) fn pdf_text(pdf: &[u8]) -> (text: Vec<char>)
    ensures
        text@ == utf8_lossy(pdf@),
{
    let s = from_utf8_lossy(pdf);
    chars_of(s.as_str())
}

/// Whether `needle` occurs in `hay`.
pub fn text_contains_exec(hay: &[char], needle: &[char]) -> (r: bool)
    ensures
        r == text_contains(hay@, needle@),
{
    let n = hay.len();
    let m = needle.len();
    if m > n {
        assert forall|k: int| !#[trigger] occurs_at(hay@, needle@, k) by {}
        return false;
    }
    let mut k: usize = 0;
    while k <= n - m
        invariant
            n == hay@.len(),
            m == needle@.len(),
            m <= n,
            k <= n - m + 1,
            forall|j: int| 0 <= j < k ==> !#[trigger] occurs_at(hay@, needle@, j),
        decreases n - m + 1 - k,
    {
        let mut i: usize = 0;
        while i < m && hay[k + i] == needle[i]
            invariant
                i <= m,
                k + m <= n,
                n == hay@.len(),
                m == needle@.len(),
                forall|t: int| 0 <= t < i ==> hay@[k + t] == needle@[t],
            decreases m - i,
        {
            i = i + 1;
        }
        if i == m {
            assert(hay@.subrange(k as int, k + m) =~= needle@);
            assert(occurs_at(hay@, needle@, k as int));
            return true;
        }
        assert(hay@.subrange(k as int, k + m)[i as int] != needle@[i as int]);
        k = k + 1;
    }
    assert forall|j: int| !#[trigger] occurs_at(hay@, needle@, j) by {
        if 0 <= j < k {
        }
    }
    false
}

/// Whether the text holds the literal `needle`.
pub(crate) fn text_has_str(text: &[char], needle: &str) -> (r: bool)
    ensures
        r == text_contains(text@, needle@),
{
    let n = chars_of(needle);
    text_contains_exec(text, n.as_slice())
}

/// A check as plain values: id, status, summary, detail.
pub type CheckModel = (Seq<char>, PlantPrepressPreflightStatus, Seq<char>, Seq<char>);

pub open spec fn check_model(c: PlantPrepressPreflightCheck) -> CheckModel {
    (c.id@, c.status, c.summary@, c.detail@)
}

pub open spec fn report_model(r: PlantPrepressPreflightReport) -> Seq<CheckModel> {
    r.checks@.map_values(|c: PlantPrepressPreflightCheck| check_model(c))
}

/// Whether resolution `(m, e)` is at most `(n, f)`, each given by its
/// thousandths of a ppi and whether it is exactly those: an exact one lies
/// below any other with the same thousandths.
pub open spec fn ppi_le(m: nat, e: bool, n: nat, f: bool) -> bool {
    m < n || (m == n && (e || !f))
}

/// The lowest effective resolution among the slots (milli-ppi, and whether
/// it is exact), if any; of two equal ones, the first.
pub open spec fn min_ppi(slots: Seq<PlantPrepressSlotPlan>) -> Option<(nat, bool)>
    decreases slots.len(),
{
    if slots.len() == 0 {
        None
    } else {
        let last = (slots.last().effective_ppi_milli as nat, slots.last().effective_ppi_exact);
        match min_ppi(slots.drop_last()) {
            None => Some(last),
            Some(m) => Some(if ppi_le(m.0, m.1, last.0, last.1) { m } else { last }),
        }
    }
}

/// The lowest resolution to one decimal, or `inf` when there are no slots.
pub open spec fn min_ppi_text(slots: Seq<PlantPrepressSlotPlan>) -> Seq<char> {
    match min_ppi(slots) {
        None => "inf"@,
        Some(m) => ppi_one_decimal(m.0, m.1),
    }
}

/// The page boxes the plant-ready writer emits for the plan's page size.
pub open spec fn box_fragment(plan: PlantPrepressPlan) -> Seq<char> {
    let w = spec_pdf_number(plan.page_width_um as int);
    let h = spec_pdf_number(plan.page_height_um as int);
    "/MediaBox [0 0 "@ + w + " "@ + h + "] /TrimBox [0 0 "@ + w + " "@ + h + "] /BleedBox [0 0 "@
        + w + " "@ + h + "]"@
}

pub open spec fn image_size_fragment(plan: PlantPrepressPlan) -> Seq<char> {
    "/Width "@ + decimal(plan.page_width_px as nat) + " /Height "@ + decimal(
        plan.page_height_px as nat,
    )
}

/// The guide ids (trimmed, non-empty) that occur in the PDF, in guide order.
pub open spec fn leaked_guide_ids(guides: Seq<TemplateGuide>, pdf: Seq<u8>) -> Seq<Seq<char>>
    decreases guides.len(),
{
    if guides.len() == 0 {
        Seq::empty()
    } else {
        let rest = leaked_guide_ids(guides.drop_last(), pdf);
        let id = trim(guides.last().id@);
        if id.len() > 0 && pdf_has(pdf, id) {
            rest.push(id)
        } else {
            rest
        }
    }
}

/// The items joined with `sep` between them.
pub open spec fn join(items: Seq<Seq<char>>, sep: Seq<char>) -> Seq<char>
    decreases items.len(),
{
    if items.len() == 0 {
        Seq::empty()
    } else if items.len() == 1 {
        items[0]
    } else {
        join(items.drop_last(), sep) + sep + items.last()
    }
}

pub open spec fn output_intent_ok(pdf: Seq<u8>, has_icc: bool) -> bool {
    has_icc && pdf_has(pdf, "/OutputIntents"@) && pdf_has(pdf, "/DestOutputProfile"@) && pdf_has(
        pdf,
        "/ICCBased"@,
    )
}

pub open spec fn pdf_x_ok(pdf: Seq<u8>) -> bool {
    pdf_has(pdf, "/GTS_PDFXVersion"@) && pdf_has(pdf, "/S /GTS_PDFX"@) && pdf_has(pdf, "/Metadata"@)
        && pdf_has(pdf, "pdfxid:GTS_PDFXVersion"@)
}

pub open spec fn no_rgb_ok(pdf: Seq<u8>) -> bool {
    !pdf_has(pdf, "/DeviceRGB"@) && !pdf_has(pdf, "/CalRGB"@) && !pdf_has(pdf, "/Lab"@)
}

pub open spec fn header_ok(pdf: Seq<u8>) -> bool {
    let h = encode_utf8("%PDF-1.7"@);
    h.len() <= pdf.len() && pdf.take(h.len() as int) == h
}

pub open spec fn pass_or_fail(ok: bool) -> PlantPrepressPreflightStatus {
    if ok {
        PlantPrepressPreflightStatus::Pass
    } else {
        PlantPrepressPreflightStatus::Fail
    }
}

pub open spec fn check_output_intent(plan: PlantPrepressPlan, pdf: Seq<u8>, channels: u8, has_icc: bool) -> CheckModel {
    let ok = output_intent_ok(pdf, has_icc);
    (
        "output-intent"@,
        if ok {
            PlantPrepressPreflightStatus::Pass
        } else if has_icc {
            PlantPrepressPreflightStatus::Fail
        } else {
            PlantPrepressPreflightStatus::Warn
        },
        if ok {
            "PDF embeds an ICC output intent"@
        } else if has_icc {
            "PDF is missing required ICC output intent structure"@
        } else {
            "PDF has no ICC output intent"@
        },
        if ok {
            "Embedded "@ + decimal(channels as nat) + " channel ICCBased image space and OutputIntent "@
                + plan.output_condition_identifier@ + "."@
        } else if has_icc {
            "ICC bytes were supplied, but the emitted PDF does not reference ICCBased image color and OutputIntent objects."@
        } else {
            "No ICC bytes were supplied for this grayscale export."@
        },
    )
}

pub open spec fn check_boxes(plan: PlantPrepressPlan, pdf: Seq<u8>) -> CheckModel {
    let ok = pdf_has(pdf, box_fragment(plan));
    (
        "pdf-boxes"@,
        pass_or_fail(ok),
        "PDF boxes match template document size"@,
        if ok {
            "MediaBox, TrimBox, and BleedBox are "@ + mm_three_decimals(plan.page_width_um as int)
                + " x "@ + mm_three_decimals(plan.page_height_um as int) + " mm."@
        } else {
            "Expected PDF page box fragment was not found: "@ + box_fragment(plan)
        },
    )
}

pub open spec fn check_image_size(plan: PlantPrepressPlan, pdf: Seq<u8>) -> CheckModel {
    let ok = pdf_has(pdf, image_size_fragment(plan));
    (
        "image-size"@,
        pass_or_fail(ok),
        "Embedded raster dimensions match target DPI"@,
        if ok {
            "Embedded raster is "@ + decimal(plan.page_width_px as nat) + " x "@ + decimal(
                plan.page_height_px as nat,
            ) + " px at "@ + decimal(plan.target_dpi as nat) + " ppi."@
        } else {
            "Expected image size fragment was not found: "@ + image_size_fragment(plan)
        },
    )
}

pub open spec fn check_guides(job: PlantPrepressJob, pdf: Seq<u8>) -> CheckModel {
    let leaked = leaked_guide_ids(job.template.guides@, pdf);
    (
        "template-guides"@,
        pass_or_fail(leaked.len() == 0),
        "Template guides are not written to the final PDF layer"@,
        if leaked.len() == 0 {
            "The final PDF contains one raster image XObject and no source guide object identifiers."@
        } else {
            "Guide identifiers leaked into emitted PDF: "@ + join(leaked, ", "@)
        },
    )
}

pub open spec fn check_safety(plan: PlantPrepressPlan) -> CheckModel {
    let n = plan.safety_areas@.len();
    (
        "safety-area"@,
        if n == 0 {
            PlantPrepressPreflightStatus::Warn
        } else if plan.safety_clearance_confirmed {
            PlantPrepressPreflightStatus::Pass
        } else {
            PlantPrepressPreflightStatus::Fail
        },
        if n == 0 {
            "No safety guide geometry was available"@
        } else if plan.safety_clearance_confirmed {
            "Safety clearance was confirmed before export"@
        } else {
            "Safety clearance was not confirmed"@
        },
        if n == 0 {
            "The exporter can omit guide layers, but cannot prove semantic text/logo clearance without safety guide geometry."@
        } else if plan.safety_clearance_confirmed {
            decimal(n) + " safety area(s) were confirmed clear before plant-ready export."@
        } else {
            decimal(n) + " safety area(s) are present, but safetyClearance.confirmed was false."@
        },
    )
}

/// The preflight checks of an exported PDF, in report order.
pub open spec fn spec_preflight_checks(
    job: PlantPrepressJob,
    plan: PlantPrepressPlan,
    pdf: Seq<u8>,
    channels: u8,
    has_icc: bool,
    conversion_method: Seq<char>,
) -> Seq<CheckModel> {
    seq![
        (
            "slot-count"@,
            PlantPrepressPreflightStatus::Pass,
            "Artwork slot count matches template placements"@,
            decimal(plan.slots@.len()) + " artwork slot(s) mapped to print placement(s)."@,
        ),
        (
            "image-resolution"@,
            PlantPrepressPreflightStatus::Pass,
            "Artwork resolution meets target DPI"@,
            "Lowest effective resolution is "@ + min_ppi_text(plan.slots@) + " ppi for a "@ + decimal(
                plan.target_dpi as nat,
            ) + " ppi target."@,
        ),
        (
            "color-conversion"@,
            PlantPrepressPreflightStatus::Pass,
            "Final raster is converted through the exporter color pipeline"@,
            conversion_method,
        ),
        check_output_intent(plan, pdf, channels, has_icc),
        (
            "pdf-header"@,
            pass_or_fail(header_ok(pdf)),
            "PDF header is present"@,
            if header_ok(pdf) {
                "Emitted file starts with %PDF-1.7."@
            } else {
                "Emitted file does not start with the expected PDF header."@
            },
        ),
        check_boxes(plan, pdf),
        check_image_size(plan, pdf),
        (
            "pdf-x-marker"@,
            pass_or_fail(pdf_x_ok(pdf)),
            "PDF/X markers and XMP metadata are present"@,
            if pdf_x_ok(pdf) {
                "Emitted PDF declares "@ + plan.pdf_standard@ + " in Info and XMP metadata."@
            } else {
                "Emitted PDF is missing one or more PDF/X marker, OutputIntent, or XMP metadata references."@
            },
        ),
        (
            "no-rgb-objects"@,
            pass_or_fail(no_rgb_ok(pdf)),
            "No RGB PDF color objects are present"@,
            if no_rgb_ok(pdf) {
                "The emitted PDF object text contains no DeviceRGB, CalRGB, or Lab color spaces."@
            } else {
                "The emitted PDF object text contains an RGB/Lab color space marker."@
            },
        ),
        check_guides(job, pdf),
        (
            "cutouts"@,
            PlantPrepressPreflightStatus::Pass,
            "Cutout guide areas are masked in the final raster"@,
            if plan.cutouts@.len() == 0 {
                "Template contains no explicit no-print cutout guides."@
            } else {
                "Masked "@ + decimal(plan.cutouts@.len()) + " cutout guide area(s) to no-print white."@
            },
        ),
        check_safety(plan),
    ]
}

/// A preflight check.
pub fn preflight_check(id: String, status: PlantPrepressPreflightStatus, summary: String, detail: String) -> (c: PlantPrepressPreflightCheck)
    ensures
        check_model(c) == (id@, status, summary@, detail@),
{
    PlantPrepressPreflightCheck { id, status, summary, detail }
}

fn check_of(id: &str, status: PlantPrepressPreflightStatus, summary: &str, detail: &[char]) -> (c: PlantPrepressPreflightCheck)
    ensures
        check_model(c) == (id@, status, summary@, detail@),
{
    preflight_check(
        string_from_chars(chars_of(id).as_slice()),
        status,
        string_from_chars(chars_of(summary).as_slice()),
        string_from_chars(detail),
    )
}

/// The lowest effective resolution among the slots.
fn min_ppi_exec(slots: &[PlantPrepressSlotPlan]) -> (m: Option<(u64, bool)>)
    ensures
        match m {
            None => min_ppi(slots@) is None,
            Some(v) => min_ppi(slots@) == Some((v.0 as nat, v.1)),
        },
{
    let mut m: Option<(u64, bool)> = None;
    let mut i: usize = 0;
    while i < slots.len()
        invariant
            i <= slots@.len(),
            match m {
                None => min_ppi(slots@.take(i as int)) is None,
                Some(v) => min_ppi(slots@.take(i as int)) == Some((v.0 as nat, v.1)),
            },
        decreases slots@.len() - i,
    {
        let v = (slots[i].effective_ppi_milli, slots[i].effective_ppi_exact);
        assert(slots@.take(i + 1).drop_last() == slots@.take(i as int));
        m = match m {
            None => Some(v),
            Some(cur) => Some(if cur.0 < v.0 || (cur.0 == v.0 && (cur.1 || !v.1)) { cur } else { v }),
        };
        i = i + 1;
    }
    assert(slots@.take(slots@.len() as int) == slots@);
    m
}

pub(crate) fn expected_pdf_box_fragment(plan: &PlantPrepressPlan) -> (out: Vec<char>)
    ensures
        out@ == box_fragment(*plan),
{
    let mut w: Vec<char> = Vec::new();
    push_pdf_number(&mut w, plan.page_width_um);
    let mut h: Vec<char> = Vec::new();
    push_pdf_number(&mut h, plan.page_height_um);
    let mut out: Vec<char> = Vec::new();
    push_str(&mut out, "/MediaBox [0 0 ");
    push_chars(&mut out, w.as_slice());
    push_str(&mut out, " ");
    push_chars(&mut out, h.as_slice());
    push_str(&mut out, "] /TrimBox [0 0 ");
    push_chars(&mut out, w.as_slice());
    push_str(&mut out, " ");
    push_chars(&mut out, h.as_slice());
    push_str(&mut out, "] /BleedBox [0 0 ");
    push_chars(&mut out, w.as_slice());
    push_str(&mut out, " ");
    push_chars(&mut out, h.as_slice());
    push_str(&mut out, "]");
    out
}

pub(crate) fn image_size_fragment_exec(plan: &PlantPrepressPlan) -> (out: Vec<char>)
    ensures
        out@ == image_size_fragment(*plan),
{
    let mut out: Vec<char> = Vec::new();
    push_str(&mut out, "/Width ");
    push_decimal(&mut out, plan.page_width_px as u64);
    push_str(&mut out, " /Height ");
    push_decimal(&mut out, plan.page_height_px as u64);
    out
}

fn header_ok_exec(pdf: &[u8]) -> (r: bool)
    ensures
        r == header_ok(pdf@),
{
    let h = "%PDF-1.7".as_bytes();
    if h.len() > pdf.len() {
        return false;
    }
    let mut i: usize = 0;
    while i < h.len()
        invariant
            i <= h@.len() <= pdf@.len(),
            h@ == encode_utf8("%PDF-1.7"@),
            forall|t: int| 0 <= t < i ==> pdf@[t] == h@[t],
        decreases h@.len() - i,
    {
        if pdf[i] != h[i] {
            assert(pdf@.take(h@.len() as int)[i as int] != h@[i as int]);
            return false;
        }
        i = i + 1;
    }
    assert(pdf@.take(h@.len() as int) =~= h@);
    true
}

fn leaked_guide_ids_exec(guides: &[TemplateGuide], pdf: &[u8], text: &[char]) -> (out: Vec<Vec<char>>)
    requires
        text@ == utf8_lossy(pdf@),
    ensures
        out@.map_values(|v: Vec<char>| v@) == leaked_guide_ids(guides@, pdf@),
{
    let mut out: Vec<Vec<char>> = Vec::new();
    let mut i: usize = 0;
    while i < guides.len()
        invariant
            i <= guides@.len(),
            text@ == utf8_lossy(pdf@),
            out@.map_values(|v: Vec<char>| v@) == leaked_guide_ids(guides@.take(i as int), pdf@),
        decreases guides@.len() - i,
    {
        assert(guides@.take(i + 1).drop_last() == guides@.take(i as int));
        let id = trim_str(guides[i].id.as_str());
        let ghost before = out@;
        if id.len() > 0 && text_contains_exec(text, id.as_slice()) {
            out.push(id);
            assert(out@.map_values(|v: Vec<char>| v@) =~= before.map_values(|v: Vec<char>| v@).push(
                id@,
            ));
        }
        i = i + 1;
    }
    assert(guides@.take(guides@.len() as int) == guides@);
    out
}

fn join_exec(items: &Vec<Vec<char>>, sep: &str) -> (out: Vec<char>)
    ensures
        out@ == join(items@.map_values(|v: Vec<char>| v@), sep@),
{
    let ghost all = items@.map_values(|v: Vec<char>| v@);
    let mut out: Vec<char> = Vec::new();
    let mut i: usize = 0;
    while i < items.len()
        invariant
            i <= items@.len(),
            all == items@.map_values(|v: Vec<char>| v@),
            out@ == join(all.take(i as int), sep@),
        decreases items@.len() - i,
    {
        assert(all.take(i + 1).drop_last() == all.take(i as int));
        assert(all.take(i + 1).last() == items@[i as int]@);
        if i > 0 {
            push_str(&mut out, sep);
        } else {
            assert(all.take(1).len() == 1);
        }
        push_chars(&mut out, items[i].as_slice());
        i = i + 1;
    }
    assert(all.take(items@.len() as int) == all);
    out
}

} // verus!

verus! {

fn check_output_intent_exec(plan: &PlantPrepressPlan, pdf: &[u8], text: &[char], channels: u8, has_icc: bool) -> (c: PlantPrepressPreflightCheck)
    requires
        text@ == utf8_lossy(pdf@),
    ensures
        check_model(c) == check_output_intent(*plan, pdf@, channels, has_icc),
{
    let ok = has_icc && text_has_str(text, "/OutputIntents") && text_has_str(text, "/DestOutputProfile")
        && text_has_str(text, "/ICCBased");
    if ok {
        let mut d: Vec<char> = Vec::new();
        push_str(&mut d, "Embedded ");
        push_decimal(&mut d, channels as u64);
        push_str(&mut d, " channel ICCBased image space and OutputIntent ");
        push_str(&mut d, plan.output_condition_identifier.as_str());
        push_str(&mut d, ".");
        check_of("output-intent", PlantPrepressPreflightStatus::Pass, "PDF embeds an ICC output intent", d.as_slice())
    } else if has_icc {
        check_of(
            "output-intent",
            PlantPrepressPreflightStatus::Fail,
            "PDF is missing required ICC output intent structure",
            chars_of("ICC bytes were supplied, but the emitted PDF does not reference ICCBased image color and OutputIntent objects.").as_slice(),
        )
    } else {
        check_of(
            "output-intent",
            PlantPrepressPreflightStatus::Warn,
            "PDF has no ICC output intent",
            chars_of("No ICC bytes were supplied for this grayscale export.").as_slice(),
        )
    }
}

fn check_boxes_exec(plan: &PlantPrepressPlan, pdf: &[u8], text: &[char]) -> (c: PlantPrepressPreflightCheck)
    requires
        text@ == utf8_lossy(pdf@),
    ensures
        check_model(c) == check_boxes(*plan, pdf@),
{
    let fragment = expected_pdf_box_fragment(plan);
    let mut d: Vec<char> = Vec::new();
    if text_contains_exec(text, fragment.as_slice()) {
        push_str(&mut d, "MediaBox, TrimBox, and BleedBox are ");
        push_mm_three_decimals(&mut d, plan.page_width_um);
        push_str(&mut d, " x ");
        push_mm_three_decimals(&mut d, plan.page_height_um);
        push_str(&mut d, " mm.");
        check_of("pdf-boxes", PlantPrepressPreflightStatus::Pass, "PDF boxes match template document size", d.as_slice())
    } else {
        push_str(&mut d, "Expected PDF page box fragment was not found: ");
        push_chars(&mut d, fragment.as_slice());
        check_of("pdf-boxes", PlantPrepressPreflightStatus::Fail, "PDF boxes match template document size", d.as_slice())
    }
}

fn check_image_size_exec(plan: &PlantPrepressPlan, pdf: &[u8], text: &[char]) -> (c: PlantPrepressPreflightCheck)
    requires
        text@ == utf8_lossy(pdf@),
    ensures
        check_model(c) == check_image_size(*plan, pdf@),
{
    let fragment = image_size_fragment_exec(plan);
    let mut d: Vec<char> = Vec::new();
    if text_contains_exec(text, fragment.as_slice()) {
        push_str(&mut d, "Embedded raster is ");
        push_decimal(&mut d, plan.page_width_px as u64);
        push_str(&mut d, " x ");
        push_decimal(&mut d, plan.page_height_px as u64);
        push_str(&mut d, " px at ");
        push_decimal(&mut d, plan.target_dpi as u64);
        push_str(&mut d, " ppi.");
        check_of("image-size", PlantPrepressPreflightStatus::Pass, "Embedded raster dimensions match target DPI", d.as_slice())
    } else {
        push_str(&mut d, "Expected image size fragment was not found: ");
        push_chars(&mut d, fragment.as_slice());
        check_of("image-size", PlantPrepressPreflightStatus::Fail, "Embedded raster dimensions match target DPI", d.as_slice())
    }
}

fn check_guides_exec(job: &PlantPrepressJob, pdf: &[u8], text: &[char]) -> (c: PlantPrepressPreflightCheck)
    requires
        text@ == utf8_lossy(pdf@),
    ensures
        check_model(c) == check_guides(*job, pdf@),
{
    let leaked = leaked_guide_ids_exec(job.template.guides.as_slice(), pdf, text);
    if leaked.len() == 0 {
        check_of(
            "template-guides",
            PlantPrepressPreflightStatus::Pass,
            "Template guides are not written to the final PDF layer",
            chars_of("The final PDF contains one raster image XObject and no source guide object identifiers.").as_slice(),
        )
    } else {
        let mut d: Vec<char> = Vec::new();
        push_str(&mut d, "Guide identifiers leaked into emitted PDF: ");
        let joined = join_exec(&leaked, ", ");
        push_chars(&mut d, joined.as_slice());
        check_of("template-guides", PlantPrepressPreflightStatus::Fail, "Template guides are not written to the final PDF layer", d.as_slice())
    }
}

fn check_safety_exec(plan: &PlantPrepressPlan) -> (c: PlantPrepressPreflightCheck)
    ensures
        check_model(c) == check_safety(*plan),
{
    let n = plan.safety_areas.len();
    if n == 0 {
        check_of(
            "safety-area",
            PlantPrepressPreflightStatus::Warn,
            "No safety guide geometry was available",
            chars_of("The exporter can omit guide layers, but cannot prove semantic text/logo clearance without safety guide geometry.").as_slice(),
        )
    } else if plan.safety_clearance_confirmed {
        let mut d: Vec<char> = Vec::new();
        push_decimal(&mut d, n as u64);
        push_str(&mut d, " safety area(s) were confirmed clear before plant-ready export.");
        check_of("safety-area", PlantPrepressPreflightStatus::Pass, "Safety clearance was confirmed before export", d.as_slice())
    } else {
        let mut d: Vec<char> = Vec::new();
        push_decimal(&mut d, n as u64);
        push_str(&mut d, " safety area(s) are present, but safetyClearance.confirmed was false.");
        check_of("safety-area", PlantPrepressPreflightStatus::Fail, "Safety clearance was not confirmed", d.as_slice())
    }
}

fn push_check(checks: &mut Vec<PlantPrepressPreflightCheck>, c: PlantPrepressPreflightCheck)
    ensures
        final(checks)@.map_values(|x: PlantPrepressPreflightCheck| check_model(x)) == old(
            checks,
        )@.map_values(|x: PlantPrepressPreflightCheck| check_model(x)).push(check_model(c)),
{
    checks.push(c);
    assert(checks@.map_values(|x: PlantPrepressPreflightCheck| check_model(x)) =~= old(
        checks,
    )@.map_values(|x: PlantPrepressPreflightCheck| check_model(x)).push(check_model(c)));
}

/// The preflight report of an exported PDF: what the exporter did, then
/// structural checks of the emitted bytes (header, page boxes, raster size,
/// PDF/X markers, no RGB colour spaces, no guide identifiers), then the
/// cutout and safety-area status of the plan.
pub fn build_preflight_report(
    job: &PlantPrepressJob,
    plan: &PlantPrepressPlan,
    pdf_bytes: &[u8],
    channels: u8,
    icc_profile_bytes: Option<&[u8]>,
    conversion_method: &str,
) -> (report: PlantPrepressPreflightReport)
    ensures
        report_model(report) == spec_preflight_checks(
            *job,
            *plan,
            pdf_bytes@,
            channels,
            icc_profile_bytes is Some,
            conversion_method@,
        ),
{
    let has_icc_profile = icc_profile_bytes.is_some();
    let text = pdf_text(pdf_bytes);
    let mut checks: Vec<PlantPrepressPreflightCheck> = Vec::new();
    let ghost m0 = checks@.map_values(|x: PlantPrepressPreflightCheck| check_model(x));
    assert(m0 =~= Seq::<CheckModel>::empty());

    let mut d1: Vec<char> = Vec::new();
    push_decimal(&mut d1, plan.slots.len() as u64);
    push_str(&mut d1, " artwork slot(s) mapped to print placement(s).");
    push_check(&mut checks, check_of("slot-count", PlantPrepressPreflightStatus::Pass, "Artwork slot count matches template placements", d1.as_slice()));

    let mut d2: Vec<char> = Vec::new();
    push_str(&mut d2, "Lowest effective resolution is ");
    match min_ppi_exec(plan.slots.as_slice()) {
        None => push_str(&mut d2, "inf"),
        Some(m) => crate::plan::push_ppi_one_decimal(&mut d2, m.0, m.1),
    }
    push_str(&mut d2, " ppi for a ");
    push_decimal(&mut d2, plan.target_dpi as u64);
    push_str(&mut d2, " ppi target.");
    push_check(&mut checks, check_of("image-resolution", PlantPrepressPreflightStatus::Pass, "Artwork resolution meets target DPI", d2.as_slice()));

    push_check(&mut checks, check_of("color-conversion", PlantPrepressPreflightStatus::Pass, "Final raster is converted through the exporter color pipeline", chars_of(conversion_method).as_slice()));

    push_check(&mut checks, check_output_intent_exec(plan, pdf_bytes, text.as_slice(), channels, has_icc_profile));

    if header_ok_exec(pdf_bytes) {
        push_check(&mut checks, check_of("pdf-header", PlantPrepressPreflightStatus::Pass, "PDF header is present", chars_of("Emitted file starts with %PDF-1.7.").as_slice()));
    } else {
        push_check(&mut checks, check_of("pdf-header", PlantPrepressPreflightStatus::Fail, "PDF header is present", chars_of("Emitted file does not start with the expected PDF header.").as_slice()));
    }

    push_check(&mut checks, check_boxes_exec(plan, pdf_bytes, text.as_slice()));
    push_check(&mut checks, check_image_size_exec(plan, pdf_bytes, text.as_slice()));

    let t = text.as_slice();
    let pdf_x = text_has_str(t, "/GTS_PDFXVersion") && text_has_str(t, "/S /GTS_PDFX")
        && text_has_str(t, "/Metadata") && text_has_str(t, "pdfxid:GTS_PDFXVersion");
    if pdf_x {
        let mut d: Vec<char> = Vec::new();
        push_str(&mut d, "Emitted PDF declares ");
        push_str(&mut d, plan.pdf_standard.as_str());
        push_str(&mut d, " in Info and XMP metadata.");
        push_check(&mut checks, check_of("pdf-x-marker", PlantPrepressPreflightStatus::Pass, "PDF/X markers and XMP metadata are present", d.as_slice()));
    } else {
        push_check(&mut checks, check_of("pdf-x-marker", PlantPrepressPreflightStatus::Fail, "PDF/X markers and XMP metadata are present", chars_of("Emitted PDF is missing one or more PDF/X marker, OutputIntent, or XMP metadata references.").as_slice()));
    }

    let no_rgb = !text_has_str(t, "/DeviceRGB") && !text_has_str(t, "/CalRGB") && !text_has_str(t, "/Lab");
    if no_rgb {
        push_check(&mut checks, check_of("no-rgb-objects", PlantPrepressPreflightStatus::Pass, "No RGB PDF color objects are present", chars_of("The emitted PDF object text contains no DeviceRGB, CalRGB, or Lab color spaces.").as_slice()));
    } else {
        push_check(&mut checks, check_of("no-rgb-objects", PlantPrepressPreflightStatus::Fail, "No RGB PDF color objects are present", chars_of("The emitted PDF object text contains an RGB/Lab color space marker.").as_slice()));
    }

    push_check(&mut checks, check_guides_exec(job, pdf_bytes, text.as_slice()));

    if plan.cutouts.len() == 0 {
        push_check(&mut checks, check_of("cutouts", PlantPrepressPreflightStatus::Pass, "Cutout guide areas are masked in the final raster", chars_of("Template contains no explicit no-print cutout guides.").as_slice()));
    } else {
        let mut d: Vec<char> = Vec::new();
        push_str(&mut d, "Masked ");
        push_decimal(&mut d, plan.cutouts.len() as u64);
        push_str(&mut d, " cutout guide area(s) to no-print white.");
        push_check(&mut checks, check_of("cutouts", PlantPrepressPreflightStatus::Pass, "Cutout guide areas are masked in the final raster", d.as_slice()));
    }

    push_check(&mut checks, check_safety_exec(plan));
    let report = PlantPrepressPreflightReport { checks };
    assert(report_model(report) =~= spec_preflight_checks(*job, *plan, pdf_bytes@, channels, has_icc_profile, conversion_method@));
    report
}

} // verus!
