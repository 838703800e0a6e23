//! The human-readable members of a manufacturing pack: the preflight
//! markdown and the plant README.
use crate::codec::{to_uppercase, uppercase};
use crate::escape::{markdown_cell_char, markdown_cell_chars, spec_markdown_cell};
use crate::model::{
    PlantPrepressPlan, PlantPrepressPreflightCheck, PlantPrepressPreflightReport,
    PlantPrepressPreflightStatus,
};
use crate::numbers::{push_pack_fixed, spec_pack_fixed};
use crate::text::{
    chars_of, decimal, push_chars, push_decimal, push_str, string_from_chars, trim, trim_str,
};
use vstd::prelude::*;

verus! {

/// The files a plant-ready pack carries, in the order a plant reads them.
pub const PACK_PROOF_PDF_NAME: &'static str = "proof.pdf";

pub const PACK_PLANT_READY_PDF_NAME: &'static str = "plant-ready.pdf";

pub const PACK_SPEC_JSON_NAME: &'static str = "record-plant-spec.json";

pub const PACK_PREFLIGHT_MARKDOWN_NAME: &'static str = "preflight.md";

pub const PACK_README_NAME: &'static str = "README-for-plant.md";

pub open spec fn status_label(status: PlantPrepressPreflightStatus) -> Seq<char> {
    match status {
        PlantPrepressPreflightStatus::Pass => "pass"@,
        PlantPrepressPreflightStatus::Warn => "warn"@,
        PlantPrepressPreflightStatus::Fail => "fail"@,
    }
}

/// The label a status shows in the preflight table.
pub fn pack_preflight_status_label(status: PlantPrepressPreflightStatus) -> (label: &'static str)
    ensures
        label@ == status_label(status),
{
    match status {
        PlantPrepressPreflightStatus::Pass => "pass",
        PlantPrepressPreflightStatus::Warn => "warn",
        PlantPrepressPreflightStatus::Fail => "fail",
    }
}

/// The text a check shows in the Check column: its summary, else its id,
/// else `Check`, trimmed.
pub open spec fn check_title(c: PlantPrepressPreflightCheck) -> Seq<char> {
    if trim(c.summary@).len() > 0 {
        trim(c.summary@)
    } else if trim(c.id@).len() > 0 {
        trim(c.id@)
    } else {
        "Check"@
    }
}

/// One table row.
pub open spec fn markdown_row(c: PlantPrepressPreflightCheck) -> Seq<char> {
    "| "@ + status_label(c.status) + " | "@ + spec_markdown_cell(check_title(c)) + " | "@
        + spec_markdown_cell(c.detail@) + " |\n"@
}

/// The rows of all checks, in order.
pub open spec fn markdown_rows(checks: Seq<PlantPrepressPreflightCheck>) -> Seq<char>
    decreases checks.len(),
{
    if checks.len() == 0 {
        Seq::empty()
    } else {
        markdown_rows(checks.drop_last()) + markdown_row(checks.last())
    }
}

/// The template name a pack shows, or `default` when it is blank.
pub open spec fn template_title(plan: PlantPrepressPlan, default: Seq<char>) -> Seq<char> {
    if trim(plan.template_name@).len() == 0 {
        default
    } else {
        trim(plan.template_name@)
    }
}

pub open spec fn markdown_head(plan: PlantPrepressPlan) -> Seq<char> {
    "# Preflight\n\nTemplate: "@ + template_title(plan, "Selected plant template"@)
        + "\nOutput condition: "@ + plan.output_condition_identifier@ + "\nTarget: "@ + uppercase(
        plan.color_mode@,
    ) + " at "@ + decimal(plan.target_dpi as nat)
        + " DPI\n\n| Status | Check | Detail |\n| --- | --- | --- |\n"@
}

/// The preflight markdown: a heading block, then one table row per check.
pub open spec fn spec_preflight_markdown(plan: PlantPrepressPlan, report: PlantPrepressPreflightReport) -> Seq<char> {
    markdown_head(plan) + markdown_rows(report.checks@)
}

fn check_title_exec(c: &PlantPrepressPreflightCheck) -> (out: Vec<char>)
    ensures
        out@ == check_title(*c),
{
    let s = trim_str(c.summary.as_str());
    if s.len() > 0 {
        return s;
    }
    let i = trim_str(c.id.as_str());
    if i.len() > 0 {
        return i;
    }
    chars_of("Check")
}

fn template_title_exec(plan: &PlantPrepressPlan, default: &str) -> (out: Vec<char>)
    ensures
        out@ == template_title(*plan, default@),
{
    let t = trim_str(plan.template_name.as_str());
    if t.len() == 0 {
        chars_of(default)
    } else {
        t
    }
}

/// Renders the preflight report a person reads before approving the pack.
pub fn pack_preflight_markdown(plan: &PlantPrepressPlan, preflight: &PlantPrepressPreflightReport) -> (out: String)
    ensures
        out@ == spec_preflight_markdown(*plan, *preflight),
{
    let mut md: Vec<char> = Vec::new();
    push_str(&mut md, "# Preflight\n\nTemplate: ");
    let title = template_title_exec(plan, "Selected plant template");
    push_chars(&mut md, title.as_slice());
    push_str(&mut md, "\nOutput condition: ");
    push_str(&mut md, plan.output_condition_identifier.as_str());
    push_str(&mut md, "\nTarget: ");
    let upper = to_uppercase(plan.color_mode.as_str());
    push_str(&mut md, upper.as_str());
    push_str(&mut md, " at ");
    push_decimal(&mut md, plan.target_dpi as u64);
    push_str(&mut md, " DPI\n\n| Status | Check | Detail |\n| --- | --- | --- |\n");
    let ghost head = md@;
    assert(head == markdown_head(*plan));
    let checks = &preflight.checks;
    let mut i: usize = 0;
    while i < checks.len()
        invariant
            i <= checks@.len(),
            checks@ == preflight.checks@,
            md@ == head + markdown_rows(checks@.take(i as int)),
        decreases checks@.len() - i,
    {
        let c = &checks[i];
        assert(checks@.take(i + 1).drop_last() == checks@.take(i as int));
        push_str(&mut md, "| ");
        push_str(&mut md, pack_preflight_status_label(c.status));
        push_str(&mut md, " | ");
        let t = check_title_exec(c);
        let tc = markdown_cell_chars(t.as_slice());
        push_chars(&mut md, tc.as_slice());
        push_str(&mut md, " | ");
        let d = chars_of(c.detail.as_str());
        let dc = markdown_cell_chars(d.as_slice());
        push_chars(&mut md, dc.as_slice());
        push_str(&mut md, " |\n");
        i = i + 1;
        assert(md@ =~= head + markdown_rows(checks@.take(i as int)));
    }
    assert(checks@.take(checks@.len() as int) == checks@);
    string_from_chars(md.as_slice())
}

/// The colour mode the README names: CMYK when the plan's is blank.
pub open spec fn readme_color(plan: PlantPrepressPlan) -> Seq<char> {
    if trim(plan.color_mode@).len() == 0 {
        "CMYK"@
    } else {
        uppercase(plan.color_mode@)
    }
}

/// The README's opening: the template whose geometry the production file
/// uses.
pub open spec fn readme_head(plan: PlantPrepressPlan) -> Seq<char> {
    "# README for Plant\n\nProduction file uses `"@ + template_title(plan, "selected plant template"@)
        + "` geometry.\n\n"@
}

/// The README's lines naming the two files.
pub open spec fn readme_files() -> Seq<char> {
    "- Proof file: `"@ + "proof.pdf"@ + "`"@ + ", visible guides and calibration marks for human approval only.\n"@
        + "- Production file: `"@ + "plant-ready.pdf"@ + "`"@
}

/// The plant's instructions.
pub open spec fn spec_pack_readme(plan: PlantPrepressPlan) -> Seq<char> {
    readme_head(plan) + readme_files() + readme_rest(plan)
}

/// The README after the file lines: page, colour, slots, and the reminder
/// to print only the production file.
pub open spec fn readme_rest(plan: PlantPrepressPlan) -> Seq<char> {
    ", artwork only with guide/template marks removed.\n- Page: "@
        + spec_pack_fixed(plan.page_width_um as int) + " x "@ + spec_pack_fixed(
        plan.page_height_um as int,
    ) + " mm, "@ + decimal(plan.page_width_px as nat) + " x "@ + decimal(plan.page_height_px as nat)
        + " px at "@ + decimal(plan.target_dpi as nat) + " DPI.\n- Color: "@ + readme_color(plan)
        + ", output condition `"@ + plan.output_condition_identifier@ + "`.\n- Slots: "@ + decimal(
        plan.slots@.len(),
    ) + " artwork placement(s).\n\nDo not print the proof guide layer. Use `"@ + "plant-ready.pdf"@
        + "` for production.\n"@
}

/// Writes the plant's instructions: the proof carries guides, and only
/// `plant-ready.pdf` goes on press.
pub fn pack_readme(plan: &PlantPrepressPlan) -> (out: String)
    ensures
        out@ == spec_pack_readme(*plan),
{
    let mut r = readme_head_exec(plan);
    let files = readme_files_exec();
    push_chars(&mut r, files.as_slice());
    let rest = readme_rest_exec(plan);
    push_chars(&mut r, rest.as_slice());
    string_from_chars(r.as_slice())
}

fn readme_head_exec(plan: &PlantPrepressPlan) -> (r: Vec<char>)
    ensures
        r@ == readme_head(*plan),
{
    let mut r: Vec<char> = Vec::new();
    push_str(&mut r, "# README for Plant\n\nProduction file uses `");
    let title = template_title_exec(plan, "selected plant template");
    push_chars(&mut r, title.as_slice());
    push_str(&mut r, "` geometry.\n\n");
    r
}

fn readme_files_exec() -> (r: Vec<char>)
    ensures
        r@ == readme_files(),
{
    let mut r: Vec<char> = Vec::new();
    push_str(&mut r, "- Proof file: `");
    push_str(&mut r, PACK_PROOF_PDF_NAME);
    push_str(&mut r, "`");
    push_str(&mut r, ", visible guides and calibration marks for human approval only.\n");
    push_str(&mut r, "- Production file: `");
    push_str(&mut r, PACK_PLANT_READY_PDF_NAME);
    push_str(&mut r, "`");
    r
}

fn readme_rest_exec(plan: &PlantPrepressPlan) -> (r: Vec<char>)
    ensures
        r@ == readme_rest(*plan),
{
    let mut r: Vec<char> = Vec::new();
    push_str(&mut r, ", artwork only with guide/template marks removed.\n- Page: ");
    push_pack_fixed(&mut r, plan.page_width_um);
    push_str(&mut r, " x ");
    push_pack_fixed(&mut r, plan.page_height_um);
    push_str(&mut r, " mm, ");
    push_decimal(&mut r, plan.page_width_px as u64);
    push_str(&mut r, " x ");
    push_decimal(&mut r, plan.page_height_px as u64);
    push_str(&mut r, " px at ");
    push_decimal(&mut r, plan.target_dpi as u64);
    push_str(&mut r, " DPI.\n- Color: ");
    if trim_str(plan.color_mode.as_str()).len() == 0 {
        push_str(&mut r, "CMYK");
    } else {
        let upper = to_uppercase(plan.color_mode.as_str());
        push_str(&mut r, upper.as_str());
    }
    push_str(&mut r, ", output condition `");
    push_str(&mut r, plan.output_condition_identifier.as_str());
    push_str(&mut r, "`.\n- Slots: ");
    push_decimal(&mut r, plan.slots.len() as u64);
    push_str(&mut r, " artwork placement(s).\n\nDo not print the proof guide layer. Use `");
    push_str(&mut r, PACK_PLANT_READY_PDF_NAME);
    push_str(&mut r, "` for production.\n");
    r
}

/// A markdown cell holds no line break, and every pipe in it is escaped by
/// the backslash right before it, so a check never spills out of its row
/// or its column.
pub proof fn lemma_markdown_cell_stays_in_cell(s: Seq<char>)
    ensures
        forall|i: int|
            0 <= i < spec_markdown_cell(s).len() ==> #[trigger] spec_markdown_cell(s)[i] != '\n'
                && spec_markdown_cell(s)[i] != '\r',
        forall|i: int|
            0 <= i < spec_markdown_cell(s).len() && #[trigger] spec_markdown_cell(s)[i] == '|'
                ==> i > 0 && spec_markdown_cell(s)[i - 1] == '\\',
    decreases s.len(),
{
    if s.len() > 0 {
        lemma_markdown_cell_stays_in_cell(s.drop_last());
        let pre = spec_markdown_cell(s.drop_last());
        let tail = markdown_cell_char(s.last());
        assert(spec_markdown_cell(s) == pre + tail);
        assert forall|i: int|
            0 <= i < spec_markdown_cell(s).len() && #[trigger] spec_markdown_cell(s)[i] == '|'
                implies i > 0 && spec_markdown_cell(s)[i - 1] == '\\' by {
            if i >= pre.len() {
                assert(tail[i - pre.len()] == '|');
            }
        }
    }
}

/// How many line breaks `s` holds.
pub open spec fn line_breaks(s: Seq<char>) -> nat
    decreases s.len(),
{
    if s.len() == 0 {
        0
    } else {
        line_breaks(s.drop_last()) + if s.last() == '\n' { 1nat } else { 0nat }
    }
}

proof fn lemma_line_breaks_add(a: Seq<char>, b: Seq<char>)
    ensures
        line_breaks(a + b) == line_breaks(a) + line_breaks(b),
    decreases b.len(),
{
    if b.len() == 0 {
        assert(a + b =~= a);
    } else {
        lemma_line_breaks_add(a, b.drop_last());
        assert((a + b).drop_last() =~= a + b.drop_last());
    }
}

proof fn lemma_no_line_breaks(s: Seq<char>)
    requires
        forall|i: int| 0 <= i < s.len() ==> s[i] != '\n',
    ensures
        line_breaks(s) == 0,
    decreases s.len(),
{
    if s.len() > 0 {
        lemma_no_line_breaks(s.drop_last());
    }
}

/// A check's row in the preflight table is one line: it holds exactly one
/// line break, its last character, whatever the check's texts hold.
pub proof fn lemma_markdown_row_is_one_line(c: PlantPrepressPreflightCheck)
    ensures
        line_breaks(markdown_row(c)) == 1,
        markdown_row(c).last() == '\n',
{
    reveal_strlit("| ");
    reveal_strlit(" | ");
    reveal_strlit(" |\n");
    reveal_strlit("pass");
    reveal_strlit("warn");
    reveal_strlit("fail");
    let label = status_label(c.status);
    let title = spec_markdown_cell(check_title(c));
    let detail = spec_markdown_cell(c.detail@);
    lemma_markdown_cell_stays_in_cell(check_title(c));
    lemma_markdown_cell_stays_in_cell(c.detail@);
    lemma_no_line_breaks("| "@);
    lemma_no_line_breaks(label);
    lemma_no_line_breaks(" | "@);
    lemma_no_line_breaks(title);
    lemma_no_line_breaks(detail);
    assert(line_breaks(" |\n"@) == 1) by {
        reveal_with_fuel(line_breaks, 4);
    }
    lemma_line_breaks_add("| "@, label);
    lemma_line_breaks_add("| "@ + label, " | "@);
    lemma_line_breaks_add("| "@ + label + " | "@, title);
    lemma_line_breaks_add("| "@ + label + " | "@ + title, " | "@);
    lemma_line_breaks_add("| "@ + label + " | "@ + title + " | "@, detail);
    lemma_line_breaks_add("| "@ + label + " | "@ + title + " | "@ + detail, " |\n"@);
}

/// The preflight table has one line per check, in the checks' order: the
/// rows hold exactly as many line breaks as there are checks.
pub proof fn lemma_markdown_rows_one_line_per_check(checks: Seq<PlantPrepressPreflightCheck>)
    ensures
        line_breaks(markdown_rows(checks)) == checks.len(),
    decreases checks.len(),
{
    if checks.len() > 0 {
        lemma_markdown_rows_one_line_per_check(checks.drop_last());
        lemma_markdown_row_is_one_line(checks.last());
        lemma_line_breaks_add(markdown_rows(checks.drop_last()), markdown_row(checks.last()));
    }
}

} // verus!
