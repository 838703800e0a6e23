//! The native preflight of a finished PDF: structural checks on its bytes,
//! and the verdicts of Ghostscript and veraPDF read from how they ran.
use crate::codec::{from_utf8_lossy, utf8_lossy};
use crate::model::PlantPrepressJob;
use crate::preflight::{pdf_has, pdf_text, text_has_str};
use crate::text::{chars_eq_str, chars_of, push_str, string_from_chars, to_string, trim, trim_str};
use vstd::prelude::*;
use vstd::utf8::encode_utf8;

verus! {

/// One check of the native preflight; its status is `pass`, `warn` or
/// `fail`.
#[derive(Clone, Debug, PartialEq, Eq)]
pub struct NativePreflightCheck {
    pub id: String,
    pub status: String,
    pub summary: String,
    pub detail: String,
}

/// The native preflight of one PDF file.
#[derive(Clone, Debug, PartialEq, Eq)]
pub struct NativePreflightReport {
    pub pdf: String,
    pub checks: Vec<NativePreflightCheck>,
}

/// A native check as plain values: id, status, summary, detail.
pub type NativeCheckModel = (Seq<char>, Seq<char>, Seq<char>, Seq<char>);

pub open spec fn native_model(c: NativePreflightCheck) -> NativeCheckModel {
    (c.id@, c.status@, c.summary@, c.detail@)
}

/// A native check.
pub fn native_check(id: String, status: String, summary: String, detail: String) -> (c: NativePreflightCheck)
    ensures
        native_model(c) == (id@, status@, summary@, detail@),
{
    NativePreflightCheck { id, status, summary, detail }
}

fn check_of(id: &str, status: &str, summary: &str, detail: &str) -> (c: NativePreflightCheck)
    ensures
        native_model(c) == (id@, status@, summary@, detail@),
{
    native_check(to_string(id), to_string(status), to_string(summary), to_string(detail))
}

/// A tool's output worth reporting: the primary stream, or the secondary
/// when the primary is empty, decoded lossily and trimmed; none when blank.
pub open spec fn spec_clean_output(primary: Seq<u8>, secondary: Seq<u8>) -> Option<Seq<char>> {
    let text = if primary.len() == 0 { secondary } else { primary };
    let cleaned = trim(utf8_lossy(text));
    if cleaned.len() == 0 { None } else { Some(cleaned) }
}

/// The text of an optional string.
pub open spec fn opt_view(o: Option<String>) -> Option<Seq<char>> {
    match o {
        Some(s) => Some(s@),
        None => None,
    }
}

/// Reads a tool's output: the primary stream unless it is empty, decoded
/// lossily and trimmed; `None` when nothing is left.
pub fn clean_command_output(primary: &[u8], secondary: &[u8]) -> (out: Option<String>)
    ensures
        opt_view(out) == spec_clean_output(primary@, secondary@),
{
    let text = if primary.len() == 0 { secondary } else { primary };
    let decoded = from_utf8_lossy(text);
    let cleaned = trim_str(decoded.as_str());
    if cleaned.len() == 0 {
        None
    } else {
        Some(string_from_chars(cleaned.as_slice()))
    }
}

/// Whether the file starts with a PDF header.
pub open spec fn has_pdf_header(bytes: Seq<u8>) -> bool {
    bytes.len() >= 5 && bytes.take(5) == encode_utf8("%PDF-"@)
}

/// Whether the file carries the PDF/X markers and an output intent.
pub open spec fn has_pdf_x_markers(bytes: Seq<u8>) -> bool {
    &&& pdf_has(bytes, "/GTS_PDFXVersion"@)
    &&& pdf_has(bytes, "/OutputIntents"@)
    &&& pdf_has(bytes, "/S /GTS_PDFX"@)
    &&& pdf_has(bytes, "pdfxid:GTS_PDFXVersion"@)
}

/// Whether the file names no RGB or Lab colour space.
pub open spec fn has_no_rgb(bytes: Seq<u8>) -> bool {
    !pdf_has(bytes, "/DeviceRGB"@) && !pdf_has(bytes, "/CalRGB"@) && !pdf_has(bytes, "/Lab"@)
}

/// Whether the file has all three page boxes.
pub open spec fn has_page_boxes(bytes: Seq<u8>) -> bool {
    pdf_has(bytes, "/MediaBox"@) && pdf_has(bytes, "/TrimBox"@) && pdf_has(bytes, "/BleedBox"@)
}

pub open spec fn pass_fail(ok: bool) -> Seq<char> {
    if ok { "pass"@ } else { "fail"@ }
}

/// The four structural checks, in report order.
pub open spec fn spec_structural_checks(bytes: Seq<u8>) -> Seq<NativeCheckModel> {
    seq![
        (
            "pdf-header"@,
            pass_fail(has_pdf_header(bytes)),
            "PDF header is present"@,
            if has_pdf_header(bytes) {
                "File starts with a PDF header."@
            } else {
                "File does not start with a PDF header."@
            },
        ),
        (
            "pdf-x-markers"@,
            pass_fail(has_pdf_x_markers(bytes)),
            "PDF/X markers and output intent are present"@,
            if has_pdf_x_markers(bytes) {
                "Found Info/XMP PDF/X markers and an OutputIntent dictionary."@
            } else {
                "Missing one or more PDF/X marker, XMP marker, or OutputIntent dictionary."@
            },
        ),
        (
            "no-rgb-objects"@,
            pass_fail(has_no_rgb(bytes)),
            "No RGB PDF color objects are present"@,
            if has_no_rgb(bytes) {
                "Object text contains no DeviceRGB, CalRGB, or Lab color spaces."@
            } else {
                "Object text contains an RGB/Lab color space marker."@
            },
        ),
        (
            "pdf-boxes"@,
            pass_fail(has_page_boxes(bytes)),
            "MediaBox, TrimBox, and BleedBox are present"@,
            if has_page_boxes(bytes) {
                "Found page box dictionaries required by the plant-ready exporter."@
            } else {
                "Missing one or more MediaBox, TrimBox, or BleedBox marker."@
            },
        ),
    ]
}

fn starts_with_pdf_header(bytes: &[u8]) -> (r: bool)
    ensures
        r == has_pdf_header(bytes@),
{
    let h = "%PDF-".as_bytes();
    if bytes.len() < 5 {
        return false;
    }
    proof {
        reveal_strlit("%PDF-");
        assert(h@.len() == 5) by {
            reveal_with_fuel(encode_utf8, 6);
        }
    }
    let mut i: usize = 0;
    while i < 5
        invariant
            i <= 5,
            h@.len() == 5,
            bytes@.len() >= 5,
            h@ == encode_utf8("%PDF-"@),
            forall|t: int| 0 <= t < i ==> bytes@[t] == h@[t],
        decreases 5 - i,
    {
        if bytes[i] != h[i] {
            assert(bytes@.take(5)[i as int] != h@[i as int]);
            return false;
        }
        i = i + 1;
    }
    assert(bytes@.take(5) =~= h@);
    true
}

/// The structural checks of a PDF's bytes: header, PDF/X markers, no RGB
/// colour spaces, page boxes.
pub fn native_structural_checks(bytes: &[u8]) -> (checks: Vec<NativePreflightCheck>)
    ensures
        checks@.map_values(|c: NativePreflightCheck| native_model(c)) == spec_structural_checks(bytes@),
{
    let mut checks: Vec<NativePreflightCheck> = Vec::new();
    if starts_with_pdf_header(bytes) {
        checks.push(check_of("pdf-header", "pass", "PDF header is present", "File starts with a PDF header."));
    } else {
        checks.push(check_of("pdf-header", "fail", "PDF header is present", "File does not start with a PDF header."));
    }
    let text = pdf_text(bytes);
    let t = text.as_slice();
    let markers = text_has_str(t, "/GTS_PDFXVersion") && text_has_str(t, "/OutputIntents")
        && text_has_str(t, "/S /GTS_PDFX") && text_has_str(t, "pdfxid:GTS_PDFXVersion");
    if markers {
        checks.push(check_of("pdf-x-markers", "pass", "PDF/X markers and output intent are present", "Found Info/XMP PDF/X markers and an OutputIntent dictionary."));
    } else {
        checks.push(check_of("pdf-x-markers", "fail", "PDF/X markers and output intent are present", "Missing one or more PDF/X marker, XMP marker, or OutputIntent dictionary."));
    }
    let no_rgb = !text_has_str(t, "/DeviceRGB") && !text_has_str(t, "/CalRGB") && !text_has_str(t, "/Lab");
    if no_rgb {
        checks.push(check_of("no-rgb-objects", "pass", "No RGB PDF color objects are present", "Object text contains no DeviceRGB, CalRGB, or Lab color spaces."));
    } else {
        checks.push(check_of("no-rgb-objects", "fail", "No RGB PDF color objects are present", "Object text contains an RGB/Lab color space marker."));
    }
    let boxes = text_has_str(t, "/MediaBox") && text_has_str(t, "/TrimBox") && text_has_str(t, "/BleedBox");
    if boxes {
        checks.push(check_of("pdf-boxes", "pass", "MediaBox, TrimBox, and BleedBox are present", "Found page box dictionaries required by the plant-ready exporter."));
    } else {
        checks.push(check_of("pdf-boxes", "fail", "MediaBox, TrimBox, and BleedBox are present", "Missing one or more MediaBox, TrimBox, or BleedBox marker."));
    }
    assert(checks@.map_values(|c: NativePreflightCheck| native_model(c)) =~= spec_structural_checks(bytes@));
    checks
}

/// The external validators the native preflight runs.
#[derive(Clone, Copy, Debug, PartialEq, Eq, Structural)]
pub enum NativeTool {
    Ghostscript,
    VeraPdf,
}

/// How running a validator went: it exited (successfully or not, with its
/// exit status as text and its two output streams), it is not installed, or
/// it could not be started.
pub enum ToolOutcome {
    Exited { success: bool, status: String, stdout: Vec<u8>, stderr: Vec<u8> },
    NotFound,
    Failed(String),
}

/// The check a validator's run gives.
pub open spec fn spec_tool_check(tool: NativeTool, outcome: ToolOutcome) -> NativeCheckModel {
    match tool {
        NativeTool::Ghostscript => match outcome {
            ToolOutcome::Exited { success, status, stdout, stderr } => {
                let cleaned = spec_clean_output(stderr@, stdout@);
                if success {
                    (
                        "ghostscript-parse"@,
                        "pass"@,
                        "Ghostscript parses the PDF without errors"@,
                        match cleaned { Some(t) => t, None => "gs completed successfully."@ },
                    )
                } else {
                    (
                        "ghostscript-parse"@,
                        "fail"@,
                        "Ghostscript rejected the PDF"@,
                        match cleaned { Some(t) => t, None => "gs exited with status "@ + status@ },
                    )
                }
            },
            ToolOutcome::NotFound => (
                "ghostscript-parse"@,
                "warn"@,
                "Ghostscript is not installed"@,
                "Install Ghostscript to run native structural PDF validation."@,
            ),
            ToolOutcome::Failed(e) => (
                "ghostscript-parse"@,
                "fail"@,
                "Ghostscript preflight could not run"@,
                e@,
            ),
        },
        NativeTool::VeraPdf => match outcome {
            ToolOutcome::Exited { success, status, stdout, stderr } => {
                let cleaned = spec_clean_output(stdout@, stderr@);
                if success {
                    (
                        "verapdf"@,
                        "pass"@,
                        "veraPDF validates PDF/X conformance"@,
                        match cleaned { Some(t) => t, None => "veraPDF completed successfully."@ },
                    )
                } else {
                    (
                        "verapdf"@,
                        "fail"@,
                        "veraPDF rejected PDF/X conformance"@,
                        match cleaned { Some(t) => t, None => "veraPDF exited with status "@ + status@ },
                    )
                }
            },
            ToolOutcome::NotFound => (
                "verapdf"@,
                "warn"@,
                "veraPDF is not installed"@,
                "Install veraPDF to prove external PDF/X conformance. Internal PDF/X marker checks still ran."@,
            ),
            ToolOutcome::Failed(e) => (
                "verapdf"@,
                "fail"@,
                "veraPDF preflight could not run"@,
                e@,
            ),
        },
    }
}

fn detail_or(cleaned: Option<String>, fallback: &str) -> (out: String)
    ensures
        out@ == match opt_view(cleaned) {
            Some(t) => t,
            None => fallback@,
        },
{
    match cleaned {
        Some(t) => t,
        None => to_string(fallback),
    }
}

fn detail_or_status(cleaned: Option<String>, prefix: &str, status: &str) -> (out: String)
    ensures
        out@ == match opt_view(cleaned) {
            Some(t) => t,
            None => prefix@ + status@,
        },
{
    match cleaned {
        Some(t) => t,
        None => {
            let mut m = chars_of(prefix);
            push_str(&mut m, status);
            string_from_chars(m.as_slice())
        },
    }
}

/// Reads a validator's run into its check: a clean exit passes, any other
/// exit fails with what the tool printed (or its exit status), a missing
/// tool only warns, and a tool that could not start fails.
pub fn tool_check(tool: NativeTool, outcome: ToolOutcome) -> (c: NativePreflightCheck)
    ensures
        native_model(c) == spec_tool_check(tool, outcome),
{
    match tool {
        NativeTool::Ghostscript => match outcome {
            ToolOutcome::Exited { success, status, stdout, stderr } => {
                let cleaned = clean_command_output(stderr.as_slice(), stdout.as_slice());
                if success {
                    let d = detail_or(cleaned, "gs completed successfully.");
                    native_check(to_string("ghostscript-parse"), to_string("pass"), to_string("Ghostscript parses the PDF without errors"), d)
                } else {
                    let d = detail_or_status(cleaned, "gs exited with status ", status.as_str());
                    native_check(to_string("ghostscript-parse"), to_string("fail"), to_string("Ghostscript rejected the PDF"), d)
                }
            },
            ToolOutcome::NotFound => check_of("ghostscript-parse", "warn", "Ghostscript is not installed", "Install Ghostscript to run native structural PDF validation."),
            ToolOutcome::Failed(e) => native_check(to_string("ghostscript-parse"), to_string("fail"), to_string("Ghostscript preflight could not run"), e),
        },
        NativeTool::VeraPdf => match outcome {
            ToolOutcome::Exited { success, status, stdout, stderr } => {
                let cleaned = clean_command_output(stdout.as_slice(), stderr.as_slice());
                if success {
                    let d = detail_or(cleaned, "veraPDF completed successfully.");
                    native_check(to_string("verapdf"), to_string("pass"), to_string("veraPDF validates PDF/X conformance"), d)
                } else {
                    let d = detail_or_status(cleaned, "veraPDF exited with status ", status.as_str());
                    native_check(to_string("verapdf"), to_string("fail"), to_string("veraPDF rejected PDF/X conformance"), d)
                }
            },
            ToolOutcome::NotFound => check_of("verapdf", "warn", "veraPDF is not installed", "Install veraPDF to prove external PDF/X conformance. Internal PDF/X marker checks still ran."),
            ToolOutcome::Failed(e) => native_check(to_string("verapdf"), to_string("fail"), to_string("veraPDF preflight could not run"), e),
        },
    }
}

/// The native preflight report of a file: the structural checks of its
/// bytes, then Ghostscript's and veraPDF's verdicts.
pub fn native_preflight_report(pdf: String, bytes: &[u8], ghostscript: ToolOutcome, verapdf: ToolOutcome) -> (r: NativePreflightReport)
    ensures
        r.pdf == pdf,
        r.checks@.map_values(|c: NativePreflightCheck| native_model(c)) == spec_structural_checks(bytes@)
            + seq![spec_tool_check(NativeTool::Ghostscript, ghostscript), spec_tool_check(NativeTool::VeraPdf, verapdf)],
{
    let ghost g = ghostscript;
    let ghost v = verapdf;
    let mut checks = native_structural_checks(bytes);
    let ghost before = checks@;
    checks.push(tool_check(NativeTool::Ghostscript, ghostscript));
    checks.push(tool_check(NativeTool::VeraPdf, verapdf));
    assert(checks@.map_values(|c: NativePreflightCheck| native_model(c)) =~= spec_structural_checks(bytes@)
        + seq![spec_tool_check(NativeTool::Ghostscript, g), spec_tool_check(NativeTool::VeraPdf, v)]) by {
        assert(checks@.take(4) == before);
    }
    NativePreflightReport { pdf, checks }
}

/// The detail of the first failed native check, if any failed.
pub open spec fn first_native_failure(checks: Seq<NativeCheckModel>) -> Option<Seq<char>>
    decreases checks.len(),
{
    if checks.len() == 0 {
        None
    } else if checks[0].1 == "fail"@ {
        Some(checks[0].3)
    } else {
        first_native_failure(checks.drop_first())
    }
}

/// Why the native preflight failed: `native preflight failed: ` and the
/// detail of its first failed check; none when no check failed.
pub fn native_failure_message(report: &NativePreflightReport) -> (m: Option<String>)
    ensures
        opt_view(m) == match first_native_failure(report.checks@.map_values(|c: NativePreflightCheck| native_model(c))) {
            Some(d) => Some("native preflight failed: "@ + d),
            None => None,
        },
{
    let ghost all = report.checks@.map_values(|c: NativePreflightCheck| native_model(c));
    let mut i: usize = 0;
    assert(all.skip(0) =~= all);
    while i < report.checks.len()
        invariant
            i <= report.checks@.len(),
            all == report.checks@.map_values(|c: NativePreflightCheck| native_model(c)),
            first_native_failure(all) == first_native_failure(all.skip(i as int)),
        decreases report.checks@.len() - i,
    {
        assert(all.skip(i as int)[0] == native_model(report.checks@[i as int]));
        if chars_eq_str(chars_of(report.checks[i].status.as_str()).as_slice(), "fail") {
            let mut m = chars_of("native preflight failed: ");
            push_str(&mut m, report.checks[i].detail.as_str());
            return Some(string_from_chars(m.as_slice()));
        }
        assert(all.skip(i as int).drop_first() =~= all.skip(i + 1));
        i = i + 1;
    }
    None
}

/// The ICC profile file an export reads: the one given on the command line,
/// else the job's target profile path when it is not blank.
pub fn icc_profile_path(cli_path: Option<String>, job: &PlantPrepressJob) -> (p: Option<String>)
    ensures
        opt_view(p) == match cli_path {
            Some(c) => Some(c@),
            None => match job.target.icc_profile {
                Some(v) => if trim(v@).len() == 0 { None } else { Some(trim(v@)) },
                None => None,
            },
        },
{
    match cli_path {
        Some(c) => Some(c),
        None => match &job.target.icc_profile {
            Some(v) => {
                let t = trim_str(v.as_str());
                if t.len() == 0 {
                    None
                } else {
                    Some(string_from_chars(t.as_slice()))
                }
            },
            None => None,
        },
    }
}

} // verus!
