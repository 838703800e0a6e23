//! What holds of the library as a whole: of every plan that validates, of
//! every rendered page, of every exported file and of the escapes that keep
//! text inside its PDF string or XML element.
use crate::escape::{
    pdf_string_char, pdf_text_char, spec_escape_pdf_string, spec_escape_pdf_text, spec_escape_xml_text,
    xml_text_char,
};
use crate::export::{
    artwork_infos, conversion_method, decoded_all, export_outcome, export_result, first_failure, is_grayscale,
    page_exported, plan_exported, plate_channels,
};
use crate::geometry::{
    insert_placement, placement_le, sorted_placements, spec_artwork_placements, spec_effective_ppi_exact,
    spec_effective_ppi_milli,
    spec_guide_layer_placements,
};
use crate::preflight::{
    box_fragment, header_ok, image_size_fragment, leaked_guide_ids, no_rgb_ok, output_intent_ok, pdf_has,
    pdf_x_ok, spec_preflight_checks, CheckModel,
};
use crate::model::{
    ArtworkInfo, GuideLayerKind, PlantPrepressArtworkBytes, PlantPrepressExportError, PlantPrepressJob, PlantPrepressPdf, PlantPrepressPlacement, PlantPrepressPlan,
    PlantPrepressPreflightStatus,
};
use crate::plan::{
    last_info, plan_matches, slot_model, slot_pass, slot_step, spec_color_mode, SlotModel, SlotPass, spec_icc_profile, spec_job_issues, spec_pdf_standard,
    spec_plan_issues, spec_source_rgb_profile, spec_target_dpi,
};
use crate::raster::{
    area_covers, area_index, area_x, area_y, blend, ceil_div, compose_page, compose_refusal, cover_pixels,
    cover_refusal, cover_size, crop_window, last_artwork, lemma_compose_refusal_stays, lemma_index_bound, mask_all, paint_area_spec,
    pixel_area, raster_page, raster_refusal, rendered_page, DecodedArtwork, PixelArea,
};
use crate::text::{decimal, trim};
use crate::pack::{readme_files, readme_head, readme_rest, spec_pack_readme};
use crate::preflight::occurs_at;
use crate::geometry::{layer_placements_in_order, spec_guide_placement, spec_rect_placement};
use crate::raster::{in_ellipse, saturate_u32};
use crate::model::{PlantTemplate, TemplateGuide};
use crate::cli::{flag_index, no_options, parse_from, path_flag, set_path, CliModel};
use crate::pdf::{bytes_contain, lemma_text_in_plain_object, lemma_text_in_stream, pdf_file_header, sequential_pdf, stream_object_bytes};
use crate::writers::{alternate_space, catalog_text, output_condition_text, prepress_objects, prepress_title, spec_prepress_pdf};
use crate::codec::uppercase;
use vstd::utf8::encode_utf8;
use vstd::prelude::*;

verus! {

proof fn lemma_slot_pass_invariant(job: PlantPrepressJob, infos: Seq<ArtworkInfo>, n: nat)
    requires
        n <= job.slots@.len(),
    ensures
        ({
            let (issues, used, plans) = slot_pass(job, infos, n);
            let placements = spec_artwork_placements(job.template);
            &&& forall|k: int|
                0 <= k < plans.len() ==> (#[trigger] plans[k]).2 < placements.len() && plans[k].3
                    == placements[plans[k].2 as int] && used.contains(plans[k].2 as int)
            &&& forall|j: int, k: int| 0 <= j < k < plans.len() ==> (#[trigger] plans[j]).2 != (#[trigger] plans[k]).2
            &&& issues.len() == 0 ==> plans.len() == n && forall|k: int|
                0 <= k < plans.len() ==> (#[trigger] plans[k]).4 >= spec_target_dpi(job) * 1000
        }),
    decreases n,
{
    if n > 0 {
        lemma_slot_pass_invariant(job, infos, (n - 1) as nat);
        let prev = slot_pass(job, infos, (n - 1) as nat);
        let next = slot_pass(job, infos, n);
        assert(next == crate::plan::slot_step(job, infos, n - 1, prev));
        assert(next.0.len() >= prev.0.len());
        assert(next.2 == prev.2 || next.2 == prev.2.push(next.2.last()));
    }
}

/// A job that validates places each of its slots on a placement of its own:
/// the plan has one slot per template placement, no two slots share a
/// placement, each slot sits on the template's placement at its index, and
/// each artwork reaches the target resolution there.
pub proof fn lemma_valid_plan_places_each_slot_once(plan: PlantPrepressPlan, job: PlantPrepressJob, infos: Seq<ArtworkInfo>)
    requires
        spec_plan_issues(job, infos).len() == 0,
        plan_matches(plan, job, infos),
    ensures
        plan.slots@.len() == spec_artwork_placements(job.template).len(),
        forall|i: int, j: int|
            0 <= i < j < plan.slots@.len() ==> (#[trigger] plan.slots@[i]).placement_index
                != (#[trigger] plan.slots@[j]).placement_index,
        forall|i: int|
            0 <= i < plan.slots@.len() ==> (#[trigger] plan.slots@[i]).placement_index
                < spec_artwork_placements(job.template).len() && plan.slots@[i].placement
                == spec_artwork_placements(job.template)[plan.slots@[i].placement_index as int]
                && plan.slots@[i].effective_ppi_milli >= plan.target_dpi * 1000,
{
    let n = job.slots@.len();
    lemma_slot_pass_invariant(job, infos, n);
    let pass = slot_pass(job, infos, n);
    assert(spec_job_issues(job).len() == 0 && pass.0.len() == 0) by {
        assert(spec_plan_issues(job, infos) == spec_job_issues(job) + pass.0);
    }
    let models = plan.slots@.map_values(|p: crate::model::PlantPrepressSlotPlan| slot_model(p));
    assert(models == pass.2);
    assert forall|i: int| 0 <= i < plan.slots@.len() implies #[trigger] slot_model(plan.slots@[i]) == pass.2[i] by {
        assert(models[i] == slot_model(plan.slots@[i]));
    }
    let placements = spec_artwork_placements(job.template);
    assert forall|i: int| 0 <= i < plan.slots@.len() implies (#[trigger] plan.slots@[i]).placement_index
        < placements.len() && plan.slots@[i].placement == placements[plan.slots@[i].placement_index as int]
        && plan.slots@[i].effective_ppi_milli >= plan.target_dpi * 1000 by {
        assert(slot_model(plan.slots@[i]) == pass.2[i]);
        let m = pass.2[i];
        assert(m.2 < placements.len());
        assert(m.4 >= spec_target_dpi(job) * 1000);
    }
    assert forall|i: int, j: int|
        0 <= i < j < plan.slots@.len() implies (#[trigger] plan.slots@[i]).placement_index
        != (#[trigger] plan.slots@[j]).placement_index by {
        assert(slot_model(plan.slots@[i]) == pass.2[i]);
        assert(slot_model(plan.slots@[j]) == pass.2[j]);
    }
}

/// How many characters of `t` a PDF reader takes as the body of a literal
/// string opened just before `t`: up to the parenthesis that closes it,
/// taking the character after each backslash as escaped and balancing
/// nested parentheses; none when the string never closes.
pub open spec fn literal_body_len(t: Seq<char>, depth: nat) -> Option<nat>
    decreases t.len(),
{
    if t.len() == 0 {
        None
    } else if t[0] == '\\' {
        if t.len() < 2 {
            None
        } else {
            match literal_body_len(t.subrange(2, t.len() as int), depth) {
                Some(n) => Some(n + 2),
                None => None,
            }
        }
    } else if t[0] == ')' {
        if depth == 0 {
            Some(0)
        } else {
            match literal_body_len(t.drop_first(), (depth - 1) as nat) {
                Some(n) => Some(n + 1),
                None => None,
            }
        }
    } else if t[0] == '(' {
        match literal_body_len(t.drop_first(), depth + 1) {
            Some(n) => Some(n + 1),
            None => None,
        }
    } else {
        match literal_body_len(t.drop_first(), depth) {
            Some(n) => Some(n + 1),
            None => None,
        }
    }
}

/// A piece of escaped text that a literal-string reader passes over whole:
/// nothing, one character that is neither a backslash, a parenthesis nor a
/// line break, or a backslash and a character that is not a line break.
pub open spec fn inert_token(tok: Seq<char>) -> bool {
    ||| tok.len() == 0
    ||| tok.len() == 1 && tok[0] != '\\' && tok[0] != '(' && tok[0] != ')' && tok[0] != '\n' && tok[0] != '\r'
    ||| tok.len() == 2 && tok[0] == '\\' && tok[1] != '\n' && tok[1] != '\r'
}

proof fn lemma_reader_passes_token(tok: Seq<char>, rest: Seq<char>)
    requires
        inert_token(tok),
    ensures
        literal_body_len(tok + rest, 0) == match literal_body_len(rest, 0) {
            Some(n) => Some(n + tok.len()),
            None => None::<nat>,
        },
{
    let t = tok + rest;
    if tok.len() == 0 {
        assert(t =~= rest);
    } else if tok.len() == 1 {
        assert(t.drop_first() =~= rest);
    } else {
        assert(t.subrange(2, t.len() as int) =~= rest);
    }
}

proof fn lemma_escape_pdf_text_front(c: char, s: Seq<char>)
    ensures
        spec_escape_pdf_text(seq![c] + s) == pdf_text_char(c) + spec_escape_pdf_text(s),
    decreases s.len(),
{
    if s.len() == 0 {
        assert(seq![c] + s =~= seq![c]);
        assert(seq![c].drop_last() =~= Seq::<char>::empty());
        assert(spec_escape_pdf_text(Seq::<char>::empty()) == Seq::<char>::empty());
        assert(spec_escape_pdf_text(seq![c]) == spec_escape_pdf_text(seq![c].drop_last()) + pdf_text_char(c));
        assert(spec_escape_pdf_text(seq![c]) =~= pdf_text_char(c));
        assert(pdf_text_char(c) + spec_escape_pdf_text(s) =~= pdf_text_char(c));
    } else {
        lemma_escape_pdf_text_front(c, s.drop_last());
        assert((seq![c] + s).drop_last() =~= seq![c] + s.drop_last());
        assert((seq![c] + s).last() == s.last());
        assert(pdf_text_char(c) + spec_escape_pdf_text(s.drop_last()) + pdf_text_char(s.last()) =~= pdf_text_char(c)
            + (spec_escape_pdf_text(s.drop_last()) + pdf_text_char(s.last())));
    }
}

proof fn lemma_escape_pdf_string_front(c: char, s: Seq<char>)
    ensures
        spec_escape_pdf_string(seq![c] + s) == pdf_string_char(c) + spec_escape_pdf_string(s),
    decreases s.len(),
{
    if s.len() == 0 {
        assert(seq![c] + s =~= seq![c]);
        assert(seq![c].drop_last() =~= Seq::<char>::empty());
        assert(spec_escape_pdf_string(Seq::<char>::empty()) == Seq::<char>::empty());
        assert(spec_escape_pdf_string(seq![c]) == spec_escape_pdf_string(seq![c].drop_last()) + pdf_string_char(c));
        assert(spec_escape_pdf_string(seq![c]) =~= pdf_string_char(c));
        assert(pdf_string_char(c) + spec_escape_pdf_string(s) =~= pdf_string_char(c));
    } else {
        lemma_escape_pdf_string_front(c, s.drop_last());
        assert((seq![c] + s).drop_last() =~= seq![c] + s.drop_last());
        assert((seq![c] + s).last() == s.last());
        assert(pdf_string_char(c) + spec_escape_pdf_string(s.drop_last()) + pdf_string_char(s.last()) =~= pdf_string_char(c)
            + (spec_escape_pdf_string(s.drop_last()) + pdf_string_char(s.last())));
    }
}

proof fn lemma_inert_has_no_break(tok: Seq<char>)
    requires
        inert_token(tok),
    ensures
        forall|i: int| 0 <= i < tok.len() ==> #[trigger] tok[i] != '\n' && tok[i] != '\r',
{
}

/// A proof title cannot break out of its string: whatever the title, a PDF
/// reader reads its escaped form, up to the closing parenthesis written
/// after it, as the whole string, and the escaped form holds no line
/// break.
pub proof fn lemma_proof_title_stays_in_string(title: Seq<char>, after: Seq<char>)
    ensures
        literal_body_len(spec_escape_pdf_text(title) + ")"@ + after, 0) == Some(
            spec_escape_pdf_text(title).len(),
        ),
        forall|i: int|
            0 <= i < spec_escape_pdf_text(title).len() ==> #[trigger] spec_escape_pdf_text(title)[i]
                != '\n' && spec_escape_pdf_text(title)[i] != '\r',
    decreases title.len(),
{
    reveal_strlit(")");
    if title.len() == 0 {
        assert(spec_escape_pdf_text(title) + ")"@ + after =~= seq![')'] + after);
    } else {
        let c = title[0];
        let rest = title.drop_first();
        assert(title =~= seq![c] + rest);
        lemma_escape_pdf_text_front(c, rest);
        lemma_proof_title_stays_in_string(rest, after);
        let tok = pdf_text_char(c);
        assert(inert_token(tok));
        assert(spec_escape_pdf_text(title) + ")"@ + after =~= tok + (spec_escape_pdf_text(rest) + ")"@ + after));
        lemma_reader_passes_token(tok, spec_escape_pdf_text(rest) + ")"@ + after);
        lemma_inert_has_no_break(tok);
        assert forall|i: int| 0 <= i < spec_escape_pdf_text(title).len() implies #[trigger] spec_escape_pdf_text(title)[i]
            != '\n' && spec_escape_pdf_text(title)[i] != '\r' by {
            if i >= tok.len() {
                assert(spec_escape_pdf_text(title)[i] == spec_escape_pdf_text(rest)[i - tok.len()]);
            } else {
                assert(spec_escape_pdf_text(title)[i] == tok[i]);
            }
        }
    }
}

/// Text in a literal string of the plant-ready file (its title, PDF/X
/// version, output condition) cannot break out of it either: a PDF reader
/// reads the whole escaped text, up to the closing parenthesis after it, as
/// the string, and the escaped text holds no line break.
pub proof fn lemma_pdf_string_stays_in_string(text: Seq<char>, after: Seq<char>)
    ensures
        literal_body_len(spec_escape_pdf_string(text) + ")"@ + after, 0) == Some(
            spec_escape_pdf_string(text).len(),
        ),
        forall|i: int|
            0 <= i < spec_escape_pdf_string(text).len() ==> #[trigger] spec_escape_pdf_string(text)[i]
                != '\n' && spec_escape_pdf_string(text)[i] != '\r',
    decreases text.len(),
{
    reveal_strlit(")");
    if text.len() == 0 {
        assert(spec_escape_pdf_string(text) + ")"@ + after =~= seq![')'] + after);
    } else {
        let c = text[0];
        let rest = text.drop_first();
        assert(text =~= seq![c] + rest);
        lemma_escape_pdf_string_front(c, rest);
        lemma_pdf_string_stays_in_string(rest, after);
        let tok = pdf_string_char(c);
        assert(inert_token(tok));
        assert(spec_escape_pdf_string(text) + ")"@ + after =~= tok + (spec_escape_pdf_string(rest) + ")"@ + after));
        lemma_reader_passes_token(tok, spec_escape_pdf_string(rest) + ")"@ + after);
        lemma_inert_has_no_break(tok);
        assert forall|i: int| 0 <= i < spec_escape_pdf_string(text).len() implies #[trigger] spec_escape_pdf_string(text)[i]
            != '\n' && spec_escape_pdf_string(text)[i] != '\r' by {
            if i >= tok.len() {
                assert(spec_escape_pdf_string(text)[i] == spec_escape_pdf_string(rest)[i - tok.len()]);
            } else {
                assert(spec_escape_pdf_string(text)[i] == tok[i]);
            }
        }
    }
}

/// Escaped XML text holds no markup: no angle bracket and no quote, so a
/// value can neither open an element nor end an attribute; and it is plain
/// ASCII.
pub proof fn lemma_xml_text_holds_no_markup(text: Seq<char>)
    ensures
        forall|i: int|
            0 <= i < spec_escape_xml_text(text).len() ==> {
                let c = #[trigger] spec_escape_xml_text(text)[i];
                c != '<' && c != '>' && c != '"' && c != '\'' && (c as u32) < 0x80
            },
    decreases text.len(),
{
    if text.len() > 0 {
        lemma_xml_text_holds_no_markup(text.drop_last());
        let pre = spec_escape_xml_text(text.drop_last());
        let tok = xml_text_char(text.last());
        assert(spec_escape_xml_text(text) == pre + tok);
        assert forall|i: int| 0 <= i < spec_escape_xml_text(text).len() implies {
            let c = #[trigger] spec_escape_xml_text(text)[i];
            c != '<' && c != '>' && c != '"' && c != '\'' && (c as u32) < 0x80
        } by {
            if i >= pre.len() {
                assert(spec_escape_xml_text(text)[i] == tok[i - pre.len()]);
            } else {
                assert(spec_escape_xml_text(text)[i] == pre[i]);
            }
        }
    }
}

/// Whether an area paints page byte `i` of a page `pw` pixels wide.
pub open spec fn covers_page_byte(a: PixelArea, pw: nat, i: int) -> bool {
    area_covers(a, area_x(a, i, pw), area_y(a, i, pw))
}

proof fn lemma_paint_area_bytes(page: Seq<u8>, source: Option<Seq<u8>>, a: PixelArea, pw: nat)
    ensures
        paint_area_spec(page, source, a, pw).len() == page.len(),
        forall|i: int|
            0 <= i < page.len() && !covers_page_byte(a, pw, i) ==> #[trigger] paint_area_spec(page, source, a, pw)[i]
                == page[i],
        source is None ==> forall|i: int|
            0 <= i < page.len() && covers_page_byte(a, pw, i) ==> #[trigger] paint_area_spec(page, source, a, pw)[i]
                == 255,
{
    assert forall|i: int| 0 <= i < page.len() && covers_page_byte(a, pw, i) implies area_index(a, i, pw) < a.width
        * a.height by {
        lemma_index_bound(area_y(a, i, pw), area_x(a, i, pw), a.width as int, a.height as int);
    }
}

/// Masking cutouts (what `mask_cutouts` does to the page's own bytes)
/// paints white every byte a cutout covers, inside a circular cutout's
/// ellipse only, and leaves every other byte as it was.
pub proof fn lemma_mask_all_bytes(page: Seq<u8>, cutouts: Seq<PlantPrepressPlacement>, dpi: u16, pw: nat)
    ensures
        mask_all(page, cutouts, dpi, pw).len() == page.len(),
        forall|i: int|
            0 <= i < page.len() && !(exists|k: int| 0 <= k < cutouts.len() && #[trigger] covers_page_byte(pixel_area(cutouts[k], dpi), pw, i))
                ==> #[trigger] mask_all(page, cutouts, dpi, pw)[i] == page[i],
        forall|i: int, k: int|
            0 <= i < page.len() && 0 <= k < cutouts.len() && #[trigger] covers_page_byte(pixel_area(cutouts[k], dpi), pw, i)
                ==> #[trigger] mask_all(page, cutouts, dpi, pw)[i] == 255,
    decreases cutouts.len(),
{
    if cutouts.len() > 0 {
        let rest = cutouts.drop_last();
        lemma_mask_all_bytes(page, rest, dpi, pw);
        let prev = mask_all(page, rest, dpi, pw);
        let a = pixel_area(cutouts.last(), dpi);
        lemma_paint_area_bytes(prev, None, a, pw);
        assert forall|i: int|
            0 <= i < page.len() && !(exists|k: int| 0 <= k < cutouts.len() && #[trigger] covers_page_byte(pixel_area(cutouts[k], dpi), pw, i))
                implies #[trigger] mask_all(page, cutouts, dpi, pw)[i] == page[i] by {
            assert(!covers_page_byte(pixel_area(cutouts[cutouts.len() - 1], dpi), pw, i));
            if exists|k: int| 0 <= k < rest.len() && #[trigger] covers_page_byte(pixel_area(rest[k], dpi), pw, i) {
                let k = choose|k: int| 0 <= k < rest.len() && #[trigger] covers_page_byte(pixel_area(rest[k], dpi), pw, i);
                assert(covers_page_byte(pixel_area(cutouts[k], dpi), pw, i));
            }
        }
        assert forall|i: int, k: int|
            0 <= i < page.len() && 0 <= k < cutouts.len() && #[trigger] covers_page_byte(pixel_area(cutouts[k], dpi), pw, i)
                implies #[trigger] mask_all(page, cutouts, dpi, pw)[i] == 255 by {
            if k < cutouts.len() - 1 {
                assert(rest[k] == cutouts[k]);
                assert(prev[i] == 255);
            }
        }
    }
}

proof fn lemma_compose_white_outside(plan: PlantPrepressPlan, artworks: Seq<DecodedArtwork>, resized: Seq<Seq<u8>>, n: nat)
    requires
        n <= plan.slots@.len(),
    ensures
        compose_page(plan, artworks, resized, n).len() == plan.page_width_px * plan.page_height_px * 3,
        forall|i: int|
            0 <= i < compose_page(plan, artworks, resized, n).len() && !(exists|k: int| 0 <= k < n && #[trigger] covers_page_byte(
                pixel_area(plan.slots@[k].placement, plan.target_dpi),
                plan.page_width_px as nat,
                i,
            )) ==> compose_page(plan, artworks, resized, n)[i] == 255,
    decreases n,
{
    let pw = plan.page_width_px as nat;
    let page = compose_page(plan, artworks, resized, n);
    if n > 0 {
        let before = compose_page(plan, artworks, resized, (n - 1) as nat);
        lemma_compose_white_outside(plan, artworks, resized, (n - 1) as nat);
        let slot = plan.slots@[n - 1];
        let a = pixel_area(slot.placement, plan.target_dpi);
        match last_artwork(artworks, slot.slot_id@) {
            None => {},
            Some(art) => {
                let fitted = cover_pixels(art.width, art.height, art.rgba@, a.width as nat, a.height as nat, resized[n - 1]);
                assert(page == paint_area_spec(before, Some(fitted), a, pw));
                lemma_paint_area_bytes(before, Some(fitted), a, pw);
            },
        }
        assert forall|i: int|
            0 <= i < page.len() && !(exists|k: int| 0 <= k < n && #[trigger] covers_page_byte(
                pixel_area(plan.slots@[k].placement, plan.target_dpi),
                pw,
                i,
            )) implies page[i] == 255 by {
            assert(!covers_page_byte(pixel_area(plan.slots@[n - 1].placement, plan.target_dpi), pw, i));
        }
    } else {
        assert forall|i: int| 0 <= i < page.len() implies page[i] == 255 by {}
    }
}

/// The rendered page is white wherever no slot paints and wherever a
/// cutout lies, whatever the resampled artwork holds: artwork never prints
/// outside its placements (the sheet margin stays blank), nor outside the
/// inscribed ellipse of a circular placement, nor on the area the plant
/// punches.
pub proof fn lemma_page_white_outside_slots_and_in_cutouts(plan: PlantPrepressPlan, artworks: Seq<DecodedArtwork>, resized: Seq<Seq<u8>>)
    ensures
        raster_page(plan, artworks, resized).len() == plan.page_width_px * plan.page_height_px * 3,
        forall|i: int|
            0 <= i < raster_page(plan, artworks, resized).len() && !(exists|k: int| 0 <= k < plan.slots@.len() && #[trigger] covers_page_byte(
                pixel_area(plan.slots@[k].placement, plan.target_dpi),
                plan.page_width_px as nat,
                i,
            )) ==> raster_page(plan, artworks, resized)[i] == 255,
        forall|i: int, k: int|
            0 <= i < raster_page(plan, artworks, resized).len() && 0 <= k < plan.cutouts@.len() && #[trigger] covers_page_byte(
                pixel_area(plan.cutouts@[k], plan.target_dpi),
                plan.page_width_px as nat,
                i,
            ) ==> raster_page(plan, artworks, resized)[i] == 255,
{
    let composed = compose_page(plan, artworks, resized, plan.slots@.len());
    lemma_compose_white_outside(plan, artworks, resized, plan.slots@.len());
    lemma_mask_all_bytes(composed, plan.cutouts@, plan.target_dpi, plan.page_width_px as nat);
}

/// A slot that no artwork carries refuses the whole page: a plant-ready
/// file is never written with a slot left blank.
pub proof fn lemma_missing_artwork_refuses_page(plan: PlantPrepressPlan, artworks: Seq<DecodedArtwork>, k: int)
    requires
        0 <= k < plan.slots@.len(),
        last_artwork(artworks, plan.slots@[k].slot_id@) is None,
    ensures
        raster_refusal(plan, artworks) is Some,
{
    assert(compose_refusal(plan, artworks, (k + 1) as nat) is Some);
    lemma_compose_refusal_stays(plan, artworks, (k + 1) as nat, plan.slots@.len());
}

/// Blending an artwork pixel over the page: an opaque pixel replaces the
/// page, a transparent one leaves it, and any other lands between the two.
pub proof fn lemma_blend_between(source: u8, alpha: u8, target: u8)
    ensures
        blend(source, 255, target) == source,
        blend(source, 0, target) == target,
        source <= target ==> source <= blend(source, alpha, target) <= target,
        target <= source ==> target <= blend(source, alpha, target) <= source,
{
    let a = alpha as int;
    let s = source as int;
    let t = target as int;
    assert((s * 255 + t * 0 + 127) / 255 == s) by (nonlinear_arith)
        requires
            0 <= s <= 255,
            0 <= t <= 255,
    ;
    assert((s * 0 + t * 255 + 127) / 255 == t) by (nonlinear_arith)
        requires
            0 <= s <= 255,
            0 <= t <= 255,
    ;
    let v = s * a + t * (255 - a) + 127;
    assert(s <= t ==> 255 * s <= s * a + t * (255 - a) <= 255 * t) by (nonlinear_arith)
        requires
            0 <= a <= 255,
    ;
    assert(t <= s ==> 255 * t <= s * a + t * (255 - a) <= 255 * s) by (nonlinear_arith)
        requires
            0 <= a <= 255,
    ;
    assert(0 <= v / 255 <= 255);
}

proof fn lemma_no_failure_at(checks: Seq<CheckModel>, j: int)
    requires
        first_failure(checks) is None,
        0 <= j < checks.len(),
    ensures
        checks[j].1 != PlantPrepressPreflightStatus::Fail,
    decreases j,
{
    if j > 0 {
        lemma_no_failure_at(checks.drop_first(), j - 1);
    }
}

proof fn lemma_exported_page_passes(out: PlantPrepressPdf, job: PlantPrepressJob, page: Seq<u8>, profile: Seq<u8>)
    requires
        page_exported(out, job, page, profile),
    ensures
        header_ok(out.pdf_bytes@),
        output_intent_ok(out.pdf_bytes@, true),
        pdf_x_ok(out.pdf_bytes@),
        no_rgb_ok(out.pdf_bytes@),
        pdf_has(out.pdf_bytes@, box_fragment(out.plan)),
        pdf_has(out.pdf_bytes@, image_size_fragment(out.plan)),
        leaked_guide_ids(job.template.guides@, out.pdf_bytes@).len() == 0,
        out.plan.safety_areas@.len() > 0 ==> out.plan.safety_clearance_confirmed,
{
    let gray = is_grayscale(out.plan);
    let checks = spec_preflight_checks(
        job,
        out.plan,
        out.pdf_bytes@,
        plate_channels(gray),
        true,
        conversion_method(gray),
    );
    assert(first_failure(checks) is None);
    assert forall|j: int| 0 <= j < checks.len() implies #[trigger] checks[j].1 != PlantPrepressPreflightStatus::Fail by {
        lemma_no_failure_at(checks, j);
    }
    assert(checks[3].1 != PlantPrepressPreflightStatus::Fail);
    assert(checks[4].1 != PlantPrepressPreflightStatus::Fail);
    assert(checks[5].1 != PlantPrepressPreflightStatus::Fail);
    assert(checks[6].1 != PlantPrepressPreflightStatus::Fail);
    assert(checks[7].1 != PlantPrepressPreflightStatus::Fail);
    assert(checks[8].1 != PlantPrepressPreflightStatus::Fail);
    assert(checks[9].1 != PlantPrepressPreflightStatus::Fail);
    assert(checks[11].1 != PlantPrepressPreflightStatus::Fail);
}

/// An exported file passed its own preflight: it starts with the PDF 1.7
/// header, carries the ICC output intent and the PDF/X markers, names no
/// RGB or Lab colour space, has page boxes at the template's size and the
/// raster at the planned pixel size, holds none of the template's guide
/// identifiers, and, where the template has safety areas, their clearance
/// was confirmed.
pub proof fn lemma_export_passes_its_preflight(
    job: PlantPrepressJob,
    artworks: Seq<PlantPrepressArtworkBytes>,
    icc: Option<Seq<u8>>,
    out: PlantPrepressPdf,
)
    requires
        export_result(job, artworks, icc, Ok(out)),
    ensures
        header_ok(out.pdf_bytes@),
        output_intent_ok(out.pdf_bytes@, true),
        pdf_x_ok(out.pdf_bytes@),
        no_rgb_ok(out.pdf_bytes@),
        pdf_has(out.pdf_bytes@, box_fragment(out.plan)),
        pdf_has(out.pdf_bytes@, image_size_fragment(out.plan)),
        leaked_guide_ids(job.template.guides@, out.pdf_bytes@).len() == 0,
        out.plan.safety_areas@.len() > 0 ==> out.plan.safety_clearance_confirmed,
{
    let res = Ok::<PlantPrepressPdf, PlantPrepressExportError>(out);
    let decoded = choose|d: Seq<DecodedArtwork>| decoded_all(artworks, d) && export_outcome(job, d, icc, res);
    let infos = artwork_infos(decoded);
    let plan = choose|p: PlantPrepressPlan| plan_matches(p, job, infos) && plan_exported(p, job, decoded, icc->0, res);
    let page = choose|pg: Seq<u8>| rendered_page(plan, decoded, pg) && page_exported(out, job, pg, icc->0);
    lemma_exported_page_passes(out, job, page, icc->0);
}

/// Placing an artwork on a slot of exactly its own pixel size does not
/// resample it: the slot receives the artwork's pixels byte for byte,
/// whatever a resample would have given.
pub proof fn lemma_cover_at_own_size(width: u32, height: u32, rgba: Seq<u8>, resized: Seq<u8>)
    requires
        width > 0,
        height > 0,
        rgba.len() >= width * height * 4,
        width * height * 16 <= isize::MAX,
    ensures
        cover_refusal(width, height, rgba.len(), width as nat, height as nat) is None,
        cover_pixels(width, height, rgba, width as nat, height as nat, resized) == rgba.subrange(0, width * height * 4),
{
    let w = width as int;
    let h = height as int;
    assert(ceil_div((height * width) as nat, width as nat) == height) by {
        assert((h * w + w - 1) / w == h) by (nonlinear_arith)
            requires
                w > 0,
                h > 0,
        ;
    }
    assert(cover_size(width as nat, height as nat, width as nat, height as nat) == (width as nat, height as nat)) by {
        assert(width * height >= height * width) by (nonlinear_arith);
        assert(height * width == width * height) by (nonlinear_arith);
    }
    assert(width * height * 4 <= width * height * 16);
    let raw = rgba.subrange(0, w * h * 4);
    let win = crop_window(raw, width as nat, width as nat, height as nat, 0, 0);
    assert forall|i: int| 0 <= i < win.len() implies #[trigger] win[i] == raw[i] by {
        vstd::arithmetic::div_mod::lemma_fundamental_div_mod(i, w * 4);
        assert((i / (w * 4)) * (w * 4) == (w * 4) * (i / (w * 4))) by (nonlinear_arith);
    }
    assert(win =~= raw);
}

/// A job is refused when it cannot be exported as asked: a slot count that
/// differs from the template's placements, no target ICC profile, a colour
/// mode other than CMYK or grayscale, a standard that is not PDF/X, a
/// source profile other than sRGB, or unconfirmed safety areas.
pub proof fn lemma_job_level_refusals(job: PlantPrepressJob, infos: Seq<ArtworkInfo>)
    ensures
        job.slots@.len() != spec_artwork_placements(job.template).len() ==> spec_plan_issues(job, infos).len() > 0,
        spec_icc_profile(job).len() == 0 ==> spec_plan_issues(job, infos).len() > 0,
        spec_color_mode(job) != "cmyk"@ && spec_color_mode(job) != "grayscale"@ ==> spec_plan_issues(job, infos).len() > 0,
        spec_source_rgb_profile(job) != "srgb"@ ==> spec_plan_issues(job, infos).len() > 0,
        !(spec_pdf_standard(job).len() >= 5 && spec_pdf_standard(job).take(5) == "pdf/x"@) ==> spec_plan_issues(job, infos).len() > 0,
        spec_guide_layer_placements(job.template, GuideLayerKind::Safety).len() > 0 && !job.safety_clearance.confirmed
            ==> spec_plan_issues(job, infos).len() > 0,
{
    let pass = slot_pass(job, infos, job.slots@.len());
    assert(spec_plan_issues(job, infos) == spec_job_issues(job) + pass.0);
    assert(spec_plan_issues(job, infos).len() >= spec_job_issues(job).len());
    reveal_strlit("pdf/x");
    assert("pdf/x"@.len() == 5);
}

/// The placement index a slot asks for: its own, else its position.
pub open spec fn slot_index(job: PlantPrepressJob, i: int) -> usize {
    match job.slots@[i].placement_index {
        Some(p) => p,
        None => i as usize,
    }
}

/// Whether slot `i` cannot be placed as asked, given the placement
/// indices `used` by the slots before it.
pub open spec fn slot_refused(job: PlantPrepressJob, infos: Seq<ArtworkInfo>, i: int, used: Set<int>) -> bool {
    let placements = spec_artwork_placements(job.template);
    let id = trim(job.slots@[i].id@);
    let idx = slot_index(job, i);
    ||| id.len() == 0
    ||| trim(job.slots@[i].artwork_path@).len() == 0
    ||| idx >= placements.len()
    ||| used.contains(idx as int)
    ||| last_info(infos, id) is None
    ||| (last_info(infos, id) matches Some(info) && idx < placements.len() && spec_effective_ppi_milli(
        info.width_px as nat,
        info.height_px as nat,
        placements[idx as int],
    ) < spec_target_dpi(job) * 1000)
}

/// The validated slot that slot `i` becomes when it can be placed: its
/// trimmed id, its artwork path, its placement index, the template's
/// placement there, and the effective resolution of its artwork over it.
pub open spec fn placed_slot(job: PlantPrepressJob, infos: Seq<ArtworkInfo>, i: int) -> SlotModel {
    let placements = spec_artwork_placements(job.template);
    let id = trim(job.slots@[i].id@);
    let idx = slot_index(job, i);
    let placement = placements[idx as int];
    let info = last_info(infos, id)->Some_0;
    (
        id,
        job.slots@[i].artwork_path@,
        idx,
        placement,
        spec_effective_ppi_milli(info.width_px as nat, info.height_px as nat, placement),
        spec_effective_ppi_exact(info.width_px as nat, info.height_px as nat, placement),
    )
}

proof fn lemma_step_grows(job: PlantPrepressJob, infos: Seq<ArtworkInfo>, i: int, state: SlotPass)
    requires
        0 <= i < job.slots@.len(),
    ensures
        slot_step(job, infos, i, state).0.len() >= state.0.len(),
        state.1.subset_of(slot_step(job, infos, i, state).1),
        slot_refused(job, infos, i, state.1) ==> slot_step(job, infos, i, state).0.len() > state.0.len(),
        !slot_refused(job, infos, i, state.1) ==> slot_step(job, infos, i, state).1 == state.1.insert(
            slot_index(job, i) as int,
        ) && slot_step(job, infos, i, state).0 == state.0 && slot_step(job, infos, i, state).2 == state.2.push(
            placed_slot(job, infos, i),
        ),
{
}

proof fn lemma_pass_grows(job: PlantPrepressJob, infos: Seq<ArtworkInfo>, m: nat, n: nat)
    requires
        m <= n <= job.slots@.len(),
    ensures
        slot_pass(job, infos, m).0.len() <= slot_pass(job, infos, n).0.len(),
        slot_pass(job, infos, m).1.subset_of(slot_pass(job, infos, n).1),
    decreases n - m,
{
    if m < n {
        lemma_pass_grows(job, infos, m, (n - 1) as nat);
        lemma_step_grows(job, infos, n - 1, slot_pass(job, infos, (n - 1) as nat));
    }
}

/// A slot the job cannot place as asked refuses the whole job: a blank id
/// or artwork path, a placement index past the template's placements or
/// already asked for by an earlier slot, no artwork size for its id, or an
/// effective resolution below the target.
pub proof fn lemma_slot_level_refusals(job: PlantPrepressJob, infos: Seq<ArtworkInfo>, i: int)
    requires
        0 <= i < job.slots@.len(),
    ensures
        trim(job.slots@[i].id@).len() == 0 ==> spec_plan_issues(job, infos).len() > 0,
        trim(job.slots@[i].artwork_path@).len() == 0 ==> spec_plan_issues(job, infos).len() > 0,
        slot_index(job, i) >= spec_artwork_placements(job.template).len() ==> spec_plan_issues(job, infos).len() > 0,
        (exists|j: int| 0 <= j < i && #[trigger] slot_index(job, j) == slot_index(job, i)) ==> spec_plan_issues(
            job,
            infos,
        ).len() > 0,
        last_info(infos, trim(job.slots@[i].id@)) is None ==> spec_plan_issues(job, infos).len() > 0,
        (last_info(infos, trim(job.slots@[i].id@)) matches Some(info) && slot_index(job, i)
            < spec_artwork_placements(job.template).len() && spec_effective_ppi_milli(
            info.width_px as nat,
            info.height_px as nat,
            spec_artwork_placements(job.template)[slot_index(job, i) as int],
        ) < spec_target_dpi(job) * 1000) ==> spec_plan_issues(job, infos).len() > 0,
{
    let n = job.slots@.len();
    let total = spec_plan_issues(job, infos);
    assert(total.len() >= slot_pass(job, infos, n).0.len());
    lemma_step_grows(job, infos, i, slot_pass(job, infos, i as nat));
    lemma_pass_grows(job, infos, (i + 1) as nat, n);
    if exists|j: int| 0 <= j < i && #[trigger] slot_index(job, j) == slot_index(job, i) {
        let j = choose|j: int| 0 <= j < i && #[trigger] slot_index(job, j) == slot_index(job, i);
        lemma_step_grows(job, infos, j, slot_pass(job, infos, j as nat));
        lemma_pass_grows(job, infos, (j + 1) as nat, n);
        if !slot_refused(job, infos, j, slot_pass(job, infos, j as nat).1) {
            lemma_pass_grows(job, infos, (j + 1) as nat, i as nat);
            assert(slot_pass(job, infos, i as nat).1.contains(slot_index(job, i) as int));
        }
    }
}

/// Whether every slot can be placed as asked: a non-blank id and artwork
/// path, a placement index of its own within the template's placements,
/// an artwork size for its id, and an effective resolution at the target
/// or above.
pub open spec fn slots_placeable(job: PlantPrepressJob, infos: Seq<ArtworkInfo>) -> bool {
    forall|i: int| 0 <= i < job.slots@.len() ==> #[trigger] slot_placeable(job, infos, i)
}

/// Whether slot `i` can be placed as asked: a non-blank id and artwork
/// path, a placement index within the template's placements that no slot
/// before it asked for, an artwork size for its id, and an effective
/// resolution at the target or above.
pub open spec fn slot_placeable(job: PlantPrepressJob, infos: Seq<ArtworkInfo>, i: int) -> bool {
    let placements = spec_artwork_placements(job.template);
    let id = trim(job.slots@[i].id@);
    &&& id.len() > 0
    &&& trim(job.slots@[i].artwork_path@).len() > 0
    &&& slot_index(job, i) < placements.len()
    &&& forall|j: int| 0 <= j < i ==> #[trigger] slot_index(job, j) != slot_index(job, i)
    &&& last_info(infos, id) matches Some(info) && spec_effective_ppi_milli(
        info.width_px as nat,
        info.height_px as nat,
        placements[slot_index(job, i) as int],
    ) >= spec_target_dpi(job) * 1000
}

proof fn lemma_placeable_prefix(job: PlantPrepressJob, infos: Seq<ArtworkInfo>, n: nat)
    requires
        n <= job.slots@.len(),
        slots_placeable(job, infos),
    ensures
        slot_pass(job, infos, n).0.len() == 0,
        slot_pass(job, infos, n).1 == Set::new(|x: int| exists|j: int| 0 <= j < n && x == #[trigger] slot_index(job, j) as int),
        slot_pass(job, infos, n).2 == Seq::new(n, |i: int| placed_slot(job, infos, i)),
    decreases n,
{
    if n == 0 {
        assert(slot_pass(job, infos, n).2 =~= Seq::new(n, |i: int| placed_slot(job, infos, i)));
        assert(Set::new(|x: int| exists|j: int| 0 <= j < 0 && x == #[trigger] slot_index(job, j) as int) =~= Set::<int>::empty());
    } else {
        let i = n - 1;
        lemma_placeable_prefix(job, infos, i as nat);
        let state = slot_pass(job, infos, i as nat);
        assert(slot_placeable(job, infos, i));
        assert(slot_index(job, i) < spec_artwork_placements(job.template).len());
        assert(!state.1.contains(slot_index(job, i) as int)) by {
            if state.1.contains(slot_index(job, i) as int) {
                let j = choose|j: int| 0 <= j < i && slot_index(job, i) as int == #[trigger] slot_index(job, j) as int;
                assert(slot_index(job, j) != slot_index(job, i));
            }
        }
        assert(!slot_refused(job, infos, i, state.1));
        lemma_step_grows(job, infos, i, state);
        assert(slot_pass(job, infos, n).1 =~= Set::new(|x: int| exists|j: int| 0 <= j < n && x == #[trigger] slot_index(job, j) as int)) by {
            assert forall|x: int| #[trigger] slot_pass(job, infos, n).1.contains(x) implies exists|j: int| 0 <= j < n && x == #[trigger] slot_index(job, j) as int by {
                if x != slot_index(job, i) as int {
                    assert(state.1.contains(x));
                }
            }
        }
        assert(slot_pass(job, infos, n).2 =~= Seq::new(n, |k: int| placed_slot(job, infos, k)));
    }
}

proof fn lemma_valid_job_placeable(job: PlantPrepressJob, infos: Seq<ArtworkInfo>)
    requires
        spec_plan_issues(job, infos).len() == 0,
    ensures
        slots_placeable(job, infos),
        job.slots@.len() == spec_artwork_placements(job.template).len(),
{
    lemma_job_level_refusals(job, infos);
    let placements = spec_artwork_placements(job.template);
    assert forall|i: int| 0 <= i < job.slots@.len() implies #[trigger] slot_placeable(job, infos, i) by {
        lemma_slot_level_refusals(job, infos, i);
        assert forall|j: int| 0 <= j < i implies #[trigger] slot_index(job, j) != slot_index(job, i) by {
            if slot_index(job, j) == slot_index(job, i) {
                assert(exists|j: int| 0 <= j < i && #[trigger] slot_index(job, j) == slot_index(job, i));
            }
        }
    }
}

spec fn index_taken(job: PlantPrepressJob, n: int, k: int) -> bool {
    exists|i: int| 0 <= i < n && #[trigger] slot_index(job, i) as int == k
}

proof fn lemma_indices_cover(job: PlantPrepressJob, n: int)
    requires
        0 <= n <= job.slots@.len(),
        forall|i: int| 0 <= i < n ==> #[trigger] slot_index(job, i) < n,
        forall|i: int, j: int| 0 <= j < i < n ==> slot_index(job, j) != slot_index(job, i),
    ensures
        forall|k: int| 0 <= k < n ==> #[trigger] index_taken(job, n, k),
{
    let x = vstd::set_lib::set_int_range(0, n);
    let f = |i: int| slot_index(job, i) as int;
    let y = x.map(f);
    vstd::set_lib::lemma_int_range(0, n);
    assert(vstd::relations::injective_on(f, x)) by {
        assert forall|a: int, b: int| x.contains(a) && x.contains(b) && #[trigger] f(a) == #[trigger] f(b) implies a == b by {
            if a < b {
                assert(slot_index(job, a) != slot_index(job, b));
            } else if b < a {
                assert(slot_index(job, b) != slot_index(job, a));
            }
        }
    }
    vstd::set_lib::lemma_map_size(x, y, f);
    assert(y.subset_of(x)) by {
        assert forall|v: int| y.contains(v) implies x.contains(v) by {
            let a = choose|a: int| x.contains(a) && f(a) == v;
            assert(slot_index(job, a) < n);
        }
    }
    vstd::set_lib::lemma_subset_equality(y, x);
    assert forall|k: int| 0 <= k < n implies #[trigger] index_taken(job, n, k) by {
        assert(x.contains(k));
        assert(y.contains(k));
        let a = choose|a: int| x.contains(a) && f(a) == k;
        assert(slot_index(job, a) as int == k);
    }
}

/// Whether some slot of the plan sits on placement index `k`.
pub open spec fn placement_taken(plan: PlantPrepressPlan, k: int) -> bool {
    exists|i: int| 0 <= i < plan.slots@.len() && #[trigger] plan.slots@[i].placement_index == k
}

/// A plan that validates is the job's slots, slot by slot and in order:
/// each keeps its trimmed id and its artwork path, sits on the placement
/// index it asked for (its position when it asked for none) and on the
/// template's placement there, with its artwork's effective resolution over
/// it; and the slots take every placement of the template exactly once.
pub proof fn lemma_valid_plan_is_the_jobs_slots(plan: PlantPrepressPlan, job: PlantPrepressJob, infos: Seq<ArtworkInfo>)
    requires
        spec_plan_issues(job, infos).len() == 0,
        plan_matches(plan, job, infos),
    ensures
        plan.slots@.len() == job.slots@.len(),
        job.slots@.len() == spec_artwork_placements(job.template).len(),
        forall|i: int| 0 <= i < plan.slots@.len() ==> #[trigger] slot_model(plan.slots@[i]) == placed_slot(job, infos, i),
        forall|i: int|
            0 <= i < plan.slots@.len() ==> (#[trigger] plan.slots@[i]).slot_id@ == trim(job.slots@[i].id@)
                && plan.slots@[i].artwork_path@ == job.slots@[i].artwork_path@ && plan.slots@[i].placement_index
                == slot_index(job, i),
        forall|k: int| 0 <= k < spec_artwork_placements(job.template).len() ==> #[trigger] placement_taken(plan, k),
{
    let n = job.slots@.len();
    lemma_valid_job_placeable(job, infos);
    lemma_placeable_prefix(job, infos, n);
    let models = plan.slots@.map_values(|p: crate::model::PlantPrepressSlotPlan| slot_model(p));
    assert(models == slot_pass(job, infos, n).2);
    assert(models.len() == plan.slots@.len());
    assert(plan.slots@.len() == n);
    assert forall|i: int| 0 <= i < plan.slots@.len() implies #[trigger] slot_model(plan.slots@[i]) == placed_slot(job, infos, i) by {
        assert(models[i] == slot_model(plan.slots@[i]));
    }
    assert forall|i: int| 0 <= i < plan.slots@.len() implies (#[trigger] plan.slots@[i]).slot_id@ == trim(job.slots@[i].id@)
        && plan.slots@[i].artwork_path@ == job.slots@[i].artwork_path@ && plan.slots@[i].placement_index
        == slot_index(job, i) by {
        assert(models[i] == slot_model(plan.slots@[i]));
    }
    // The slots' indices are distinct and below the placement count, and
    // there are as many slots as placements: together they take them all.
    assert forall|i: int, j: int| 0 <= j < i < n implies slot_index(job, j) != slot_index(job, i) by {
        assert(slot_placeable(job, infos, i));
    }
    assert forall|i: int| 0 <= i < n implies #[trigger] slot_index(job, i) < n by {
        assert(slot_placeable(job, infos, i));
    }
    lemma_indices_cover(job, n as int);
    assert forall|k: int| 0 <= k < spec_artwork_placements(job.template).len() implies #[trigger] placement_taken(plan, k) by {
        assert(index_taken(job, n as int, k));
        let i = choose|i: int| 0 <= i < n && #[trigger] slot_index(job, i) as int == k;
        assert(plan.slots@[i].placement_index == slot_index(job, i)) by {
            assert(models[i] == slot_model(plan.slots@[i]));
        }
    }
}

/// A job whose slots can all be placed as asked has no issue beyond the
/// job-level ones: with those absent, it validates.
pub proof fn lemma_placeable_slots_validate(job: PlantPrepressJob, infos: Seq<ArtworkInfo>)
    requires
        slots_placeable(job, infos),
    ensures
        spec_plan_issues(job, infos) == spec_job_issues(job),
{
    lemma_placeable_prefix(job, infos, job.slots@.len());
    assert(spec_plan_issues(job, infos) =~= spec_job_issues(job));
}

/// Whether `bigger` lists the same artworks as `infos`, in the same order
/// and under the same slot ids, each at least as many pixels wide and high.
pub open spec fn infos_grow(infos: Seq<ArtworkInfo>, bigger: Seq<ArtworkInfo>) -> bool {
    &&& bigger.len() == infos.len()
    &&& forall|k: int|
        0 <= k < infos.len() ==> #[trigger] bigger[k].slot_id@ == infos[k].slot_id@ && bigger[k].width_px
            >= infos[k].width_px && bigger[k].height_px >= infos[k].height_px
}

proof fn lemma_last_info_grows(infos: Seq<ArtworkInfo>, bigger: Seq<ArtworkInfo>, id: Seq<char>)
    requires
        infos_grow(infos, bigger),
    ensures
        match last_info(infos, id) {
            None => last_info(bigger, id) is None,
            Some(a) => last_info(bigger, id) matches Some(b) && b.width_px >= a.width_px && b.height_px >= a.height_px,
        },
    decreases infos.len(),
{
    if infos.len() > 0 {
        let k = infos.len() - 1;
        assert(bigger[k].slot_id@ == infos[k].slot_id@);
        assert(infos_grow(infos.drop_last(), bigger.drop_last())) by {
            assert forall|j: int| 0 <= j < infos.drop_last().len() implies #[trigger] bigger.drop_last()[j].slot_id@
                == infos.drop_last()[j].slot_id@ && bigger.drop_last()[j].width_px >= infos.drop_last()[j].width_px
                && bigger.drop_last()[j].height_px >= infos.drop_last()[j].height_px by {
                assert(bigger[j].slot_id@ == infos[j].slot_id@);
            }
        }
        lemma_last_info_grows(infos.drop_last(), bigger.drop_last(), id);
    }
}

proof fn lemma_ppi_grows(w1: nat, h1: nat, w2: nat, h2: nat, p: PlantPrepressPlacement)
    requires
        w1 <= w2,
        h1 <= h2,
    ensures
        spec_effective_ppi_milli(w1, h1, p) <= spec_effective_ppi_milli(w2, h2, p),
{
    if p.width_um > 0 && p.height_um > 0 {
        assert(w1 * 25_400_000 <= w2 * 25_400_000) by (nonlinear_arith)
            requires
                w1 <= w2,
        ;
        assert(h1 * 25_400_000 <= h2 * 25_400_000) by (nonlinear_arith)
            requires
                h1 <= h2,
        ;
        vstd::arithmetic::div_mod::lemma_div_is_ordered(
            (w1 * 25_400_000) as int,
            (w2 * 25_400_000) as int,
            p.width_um as int,
        );
        vstd::arithmetic::div_mod::lemma_div_is_ordered(
            (h1 * 25_400_000) as int,
            (h2 * 25_400_000) as int,
            p.height_um as int,
        );
    }
}

/// Larger artwork never turns a valid job invalid, and only raises the
/// effective resolution: given the same artworks with at least as many
/// pixels each way, the job still validates and each slot keeps its id,
/// artwork path, placement index and placement, with an effective
/// resolution at least the one it had.
pub proof fn lemma_bigger_artwork_keeps_job_valid(job: PlantPrepressJob, infos: Seq<ArtworkInfo>, bigger: Seq<ArtworkInfo>)
    requires
        spec_plan_issues(job, infos).len() == 0,
        infos_grow(infos, bigger),
    ensures
        spec_plan_issues(job, bigger).len() == 0,
        forall|i: int|
            0 <= i < job.slots@.len() ==> {
                let before = placed_slot(job, infos, i);
                let after = #[trigger] placed_slot(job, bigger, i);
                &&& after.0 == before.0
                &&& after.1 == before.1
                &&& after.2 == before.2
                &&& after.3 == before.3
                &&& after.4 >= before.4
            },
{
    lemma_valid_job_placeable(job, infos);
    let placements = spec_artwork_placements(job.template);
    assert forall|i: int| 0 <= i < job.slots@.len() implies #[trigger] slot_placeable(job, bigger, i) && placed_slot(
        job,
        bigger,
        i,
    ).4 >= placed_slot(job, infos, i).4 by {
        assert(slot_placeable(job, infos, i));
        let id = trim(job.slots@[i].id@);
        lemma_last_info_grows(infos, bigger, id);
        let a = last_info(infos, id)->Some_0;
        let b = last_info(bigger, id)->Some_0;
        lemma_ppi_grows(
            a.width_px as nat,
            a.height_px as nat,
            b.width_px as nat,
            b.height_px as nat,
            placements[slot_index(job, i) as int],
        );
    }
    lemma_placeable_slots_validate(job, bigger);
    assert(spec_plan_issues(job, infos) == spec_job_issues(job) + slot_pass(job, infos, job.slots@.len()).0);
    assert forall|i: int| 0 <= i < job.slots@.len() implies {
        let before = placed_slot(job, infos, i);
        let after = #[trigger] placed_slot(job, bigger, i);
        &&& after.0 == before.0
        &&& after.1 == before.1
        &&& after.2 == before.2
        &&& after.3 == before.3
        &&& after.4 >= before.4
    } by {
        assert(slot_placeable(job, bigger, i));
    }
}

proof fn lemma_catalog_markers(plan: PlantPrepressPlan, image: Seq<u8>, content: Seq<u8>, channels: u8, fallback: Seq<char>, icc: Option<Seq<u8>>)
    ensures
        bytes_contain(spec_prepress_pdf(plan, image, content, channels, fallback, icc), encode_utf8(catalog_text(icc is Some))),
        bytes_contain(spec_prepress_pdf(plan, image, content, channels, fallback, icc), encode_utf8("/Metadata "@)),
{
    let objs = prepress_objects(plan, image, content, channels, fallback, icc);
    let header = pdf_file_header("1.7"@);
    let has_icc = icc is Some;
    let none: Seq<char> = Seq::empty();
    let cat = catalog_text(has_icc);
    assert(none + cat + none =~= cat);
    lemma_text_in_plain_object(header, objs, 1, 6, 0, 1, cat, none, cat, none);
    let cat_pre = "<< /Type /Catalog /Pages 2 0 R"@ + (if has_icc { " /OutputIntents [7 0 R]"@ } else { ""@ }) + " "@;
    let cat_post = decimal(if has_icc { 9nat } else { 7nat }) + " 0 R >>"@;
    assert(cat =~= cat_pre + "/Metadata "@ + cat_post);
    lemma_text_in_plain_object(header, objs, 1, 6, 0, 1, cat, cat_pre, "/Metadata "@, cat_post);
}

proof fn lemma_page_markers(plan: PlantPrepressPlan, image: Seq<u8>, content: Seq<u8>, channels: u8, fallback: Seq<char>, icc: Option<Seq<u8>>)
    ensures
        bytes_contain(spec_prepress_pdf(plan, image, content, channels, fallback, icc), encode_utf8(box_fragment(plan))),
        bytes_contain(spec_prepress_pdf(plan, image, content, channels, fallback, icc), encode_utf8("/GTS_PDFXVersion ("@)),
{
    let objs = prepress_objects(plan, image, content, channels, fallback, icc);
    let header = pdf_file_header("1.7"@);
    let page_pre = "<< /Type /Page /Parent 2 0 R "@;
    let page_post = " /Resources << /XObject << /Im0 4 0 R >> >> /Contents 5 0 R >>"@;
    lemma_text_in_plain_object(header, objs, 1, 6, 2, 3, page_pre + box_fragment(plan) + page_post, page_pre, box_fragment(plan), page_post);
    let info_pre = "<< /Title ("@ + spec_escape_pdf_string(prepress_title(plan))
        + ") /Producer (Bitneedle record-prepress) /Creator (Bitneedle record-prepress) "@;
    let info_post = spec_escape_pdf_string(uppercase(plan.pdf_standard@)) + ") >>"@;
    let info_body = info_pre + "/GTS_PDFXVersion ("@ + spec_escape_pdf_string(uppercase(plan.pdf_standard@)) + ") >>"@;
    assert(info_body =~= info_pre + "/GTS_PDFXVersion ("@ + info_post);
    lemma_text_in_plain_object(header, objs, 1, 6, 5, 6, info_body, info_pre, "/GTS_PDFXVersion ("@, info_post);
}

proof fn lemma_image_markers(plan: PlantPrepressPlan, image: Seq<u8>, content: Seq<u8>, channels: u8, fallback: Seq<char>, icc: Option<Seq<u8>>)
    ensures
        bytes_contain(spec_prepress_pdf(plan, image, content, channels, fallback, icc), encode_utf8(image_size_fragment(plan))),
        icc is Some ==> bytes_contain(
            spec_prepress_pdf(plan, image, content, channels, fallback, icc),
            encode_utf8("/ColorSpace "@ + "[/ICCBased 8 0 R]"@),
        ),
        icc is None ==> bytes_contain(
            spec_prepress_pdf(plan, image, content, channels, fallback, icc),
            encode_utf8("/ColorSpace "@ + fallback + " "@),
        ),
{
    let cs = if icc is Some { "[/ICCBased 8 0 R]"@ } else { fallback };
    lemma_image_dict_markers(plan, image, content, channels, fallback, icc, cs);
}

/// The raster's stream dictionary, with colour space `cs`.
spec fn image_dict(plan: PlantPrepressPlan, cs: Seq<char>) -> Seq<char> {
    "<< /Type /XObject /Subtype /Image "@ + image_size_fragment(plan) + " "@ + "/ColorSpace "@ + cs + " "@
        + "/BitsPerComponent 8 /Filter /FlateDecode"@
}

proof fn lemma_image_object(plan: PlantPrepressPlan, image: Seq<u8>, content: Seq<u8>, channels: u8, fallback: Seq<char>, icc: Option<Seq<u8>>)
    ensures
        prepress_objects(plan, image, content, channels, fallback, icc)[3] == stream_object_bytes(
            4,
            image_dict(plan, if icc is Some { "[/ICCBased 8 0 R]"@ } else { fallback }),
            image,
        ),
{
}

proof fn lemma_image_dict_markers(
    plan: PlantPrepressPlan,
    image: Seq<u8>,
    content: Seq<u8>,
    channels: u8,
    fallback: Seq<char>,
    icc: Option<Seq<u8>>,
    cs: Seq<char>,
)
    requires
        cs == if icc is Some { "[/ICCBased 8 0 R]"@ } else { fallback },
    ensures
        bytes_contain(spec_prepress_pdf(plan, image, content, channels, fallback, icc), encode_utf8(image_size_fragment(plan))),
        bytes_contain(spec_prepress_pdf(plan, image, content, channels, fallback, icc), encode_utf8("/ColorSpace "@ + cs)),
        bytes_contain(spec_prepress_pdf(plan, image, content, channels, fallback, icc), encode_utf8("/ColorSpace "@ + cs + " "@)),
{
    let objs = prepress_objects(plan, image, content, channels, fallback, icc);
    lemma_image_object(plan, image, content, channels, fallback, icc);
    lemma_image_size_marker(objs, plan, image, cs);
    lemma_image_space_markers(objs, plan, image, cs);
}

proof fn lemma_image_size_marker(objs: Seq<Seq<u8>>, plan: PlantPrepressPlan, image: Seq<u8>, cs: Seq<char>)
    requires
        objs.len() > 3,
        objs[3] == stream_object_bytes(4, image_dict(plan, cs), image),
    ensures
        bytes_contain(sequential_pdf(pdf_file_header("1.7"@), objs, 1, 6), encode_utf8(image_size_fragment(plan))),
{
    let img_pre = "<< /Type /XObject /Subtype /Image "@;
    let size = image_size_fragment(plan);
    let tail = " "@ + "/ColorSpace "@ + cs + " "@ + "/BitsPerComponent 8 /Filter /FlateDecode"@;
    assert(image_dict(plan, cs) =~= img_pre + size + tail);
    lemma_text_in_stream(pdf_file_header("1.7"@), objs, 1, 6, 3, 4, image_dict(plan, cs), image, img_pre, size, tail);
}

proof fn lemma_image_space_markers(objs: Seq<Seq<u8>>, plan: PlantPrepressPlan, image: Seq<u8>, cs: Seq<char>)
    requires
        objs.len() > 3,
        objs[3] == stream_object_bytes(4, image_dict(plan, cs), image),
    ensures
        bytes_contain(sequential_pdf(pdf_file_header("1.7"@), objs, 1, 6), encode_utf8("/ColorSpace "@ + cs)),
        bytes_contain(sequential_pdf(pdf_file_header("1.7"@), objs, 1, 6), encode_utf8("/ColorSpace "@ + cs + " "@)),
{
    let pre = "<< /Type /XObject /Subtype /Image "@ + image_size_fragment(plan) + " "@;
    let last = "/BitsPerComponent 8 /Filter /FlateDecode"@;
    assert(image_dict(plan, cs) =~= pre + ("/ColorSpace "@ + cs) + (" "@ + last));
    lemma_text_in_stream(pdf_file_header("1.7"@), objs, 1, 6, 3, 4, image_dict(plan, cs), image, pre, "/ColorSpace "@ + cs, " "@ + last);
    assert(image_dict(plan, cs) =~= pre + ("/ColorSpace "@ + cs + " "@) + last);
    lemma_text_in_stream(pdf_file_header("1.7"@), objs, 1, 6, 3, 4, image_dict(plan, cs), image, pre, "/ColorSpace "@ + cs + " "@, last);
}

proof fn lemma_intent_markers(plan: PlantPrepressPlan, image: Seq<u8>, content: Seq<u8>, channels: u8, fallback: Seq<char>, icc: Option<Seq<u8>>)
    requires
        icc is Some,
    ensures
        bytes_contain(spec_prepress_pdf(plan, image, content, channels, fallback, icc), encode_utf8("/DestOutputProfile 8 0 R"@)),
        bytes_contain(
            spec_prepress_pdf(plan, image, content, channels, fallback, icc),
            encode_utf8("<< /N "@ + decimal(channels as nat) + " /Alternate "@),
        ),
{
    let objs = prepress_objects(plan, image, content, channels, fallback, icc);
    let header = pdf_file_header("1.7"@);
    let none: Seq<char> = Seq::empty();
    let profile = icc->0;
    let oc = spec_escape_pdf_string(output_condition_text(plan));
    let intent_pre = "<< /Type /OutputIntent /S /GTS_PDFX /OutputConditionIdentifier ("@ + oc + ") /Info ("@ + oc
        + ") "@;
    lemma_text_in_plain_object(
        header,
        objs,
        1,
        6,
        6,
        7,
        intent_pre + "/DestOutputProfile 8 0 R"@ + " >>"@,
        intent_pre,
        "/DestOutputProfile 8 0 R"@,
        " >>"@,
    );
    let n_frag = "<< /N "@ + decimal(channels as nat) + " /Alternate "@;
    let n_post = alternate_space(channels, fallback) + " /Filter /FlateDecode"@;
    let dict = "<< /N "@ + decimal(channels as nat) + " /Alternate "@ + alternate_space(channels, fallback) + " /Filter /FlateDecode"@;
    assert(dict =~= none + n_frag + n_post);
    lemma_text_in_stream(header, objs, 1, 6, 7, 8, dict, profile, none, n_frag, n_post);
}

/// The plant-ready file holds what its preflight looks for. It opens with
/// the PDF 1.7 header, and it holds: the page boxes at the plan's size; the
/// raster's pixel size; the catalog, naming the output intent when a
/// profile is given and the metadata stream; the PDF/X version key; the
/// raster's colour space, the profile's when one is given, else the
/// fallback; and, with a profile, the output intent's destination profile
/// and the profile's channel count ahead of its alternate space.
pub proof fn lemma_prepress_pdf_holds_its_markers(
    plan: PlantPrepressPlan,
    image: Seq<u8>,
    content: Seq<u8>,
    channels: u8,
    fallback: Seq<char>,
    icc: Option<Seq<u8>>,
)
    ensures
        ({
            let file = spec_prepress_pdf(plan, image, content, channels, fallback, icc);
            &&& file.take(pdf_file_header("1.7"@).len() as int) == pdf_file_header("1.7"@)
            &&& bytes_contain(file, encode_utf8(box_fragment(plan)))
            &&& bytes_contain(file, encode_utf8(image_size_fragment(plan)))
            &&& bytes_contain(file, encode_utf8(catalog_text(icc is Some)))
            &&& bytes_contain(file, encode_utf8("/Metadata "@))
            &&& bytes_contain(file, encode_utf8("/GTS_PDFXVersion ("@))
            &&& icc is Some ==> bytes_contain(file, encode_utf8("/ColorSpace "@ + "[/ICCBased 8 0 R]"@))
            &&& icc is Some ==> bytes_contain(file, encode_utf8("/DestOutputProfile 8 0 R"@))
            &&& icc is Some ==> bytes_contain(file, encode_utf8("<< /N "@ + decimal(channels as nat) + " /Alternate "@))
            &&& icc is None ==> bytes_contain(file, encode_utf8("/ColorSpace "@ + fallback + " "@))
        }),
{
    let file = spec_prepress_pdf(plan, image, content, channels, fallback, icc);
    let header = pdf_file_header("1.7"@);
    assert(file.take(header.len() as int) =~= header);
    lemma_catalog_markers(plan, image, content, channels, fallback, icc);
    lemma_page_markers(plan, image, content, channels, fallback, icc);
    lemma_image_markers(plan, image, content, channels, fallback, icc);
    if icc is Some {
        lemma_intent_markers(plan, image, content, channels, fallback, icc);
    }
}

proof fn lemma_parse_shift(pre: Seq<Seq<char>>, s: Seq<Seq<char>>, j: nat, m: CliModel)
    requires
        j <= s.len(),
    ensures
        parse_from(pre + s, pre.len() + j, m) == parse_from(s, j, m),
    decreases s.len() - j,
{
    let all = pre + s;
    if j < s.len() {
        assert(all[(pre.len() + j) as int] == s[j as int]);
        if j + 1 < s.len() {
            assert(all[(pre.len() + j + 1) as int] == s[(j + 1) as int]);
            let k = flag_index(s[j as int]);
            if k is Some {
                lemma_parse_shift(pre, s, j + 2, set_path(m, k->0, s[(j + 1) as int]));
                assert(pre.len() + j + 2 == pre.len() + (j + 2));
            }
        }
    }
}

proof fn lemma_parse_prefix(args: Seq<Seq<char>>, extra: Seq<Seq<char>>, i: nat, m: CliModel)
    requires
        i <= args.len(),
        parse_from(args, i, m) matches Ok(r) && !r.help,
    ensures
        parse_from(args + extra, i, m) == parse_from(extra, 0, parse_from(args, i, m)->Ok_0),
    decreases args.len() - i,
{
    let all = args + extra;
    if i == args.len() {
        lemma_parse_shift(args, extra, 0, m);
    } else {
        assert(all[i as int] == args[i as int]);
        let k = flag_index(args[i as int]);
        if k is Some {
            assert(i + 1 < args.len());
            assert(all[(i + 1) as int] == args[(i + 1) as int]);
            lemma_parse_prefix(args, extra, i + 2, set_path(m, k->0, args[(i + 1) as int]));
        }
    }
}

/// Options are read left to right and a later path wins: after arguments
/// that parse (without asking for help), a further flag and path set that
/// flag's path whatever it was before; a further flag with no path after it
/// is refused as `<flag> requires a path`; and a further argument that is
/// neither a flag nor a request for help is refused as
/// `unknown option: <argument>`.
pub proof fn lemma_later_flag_wins(args: Seq<Seq<char>>, flag: Seq<char>, path: Seq<char>, other: Seq<char>)
    requires
        parse_from(args, 0, no_options()) matches Ok(m) && !m.help,
    ensures
        flag_index(flag) matches Some(k) ==> parse_from(args + seq![flag, path], 0, no_options()) == Ok::<CliModel, Seq<char>>(
            set_path(parse_from(args, 0, no_options())->Ok_0, k, path),
        ),
        flag_index(flag) is Some ==> parse_from(args + seq![flag], 0, no_options()) == Err::<CliModel, Seq<char>>(
            flag + " requires a path"@,
        ),
        flag_index(other) is None && other != "-h"@ && other != "--help"@ ==> parse_from(
            args + seq![other],
            0,
            no_options(),
        ) == Err::<CliModel, Seq<char>>("unknown option: "@ + other),
{
    let m = parse_from(args, 0, no_options())->Ok_0;
    lemma_parse_prefix(args, seq![flag, path], 0, no_options());
    lemma_parse_prefix(args, seq![flag], 0, no_options());
    lemma_parse_prefix(args, seq![other], 0, no_options());
    if flag_index(flag) is Some {
        assert(path_flag(flag_index(flag)->0) == flag);
        assert(parse_from(seq![flag, path], 2, set_path(m, flag_index(flag)->0, path)) == Ok::<CliModel, Seq<char>>(
            set_path(m, flag_index(flag)->0, path),
        ));
    }
}

/// Scaling to cover a slot keeps the artwork's aspect ratio: the scaled
/// size is at least the slot in both directions and equal to it in the one
/// that binds (width when the slot is relatively wider, else height), and
/// the other side is the artwork's side scaled by the same factor, rounded
/// up to a whole pixel (or the slot's side, when that is more).
pub proof fn lemma_cover_keeps_aspect(aw: nat, ah: nat, w: nat, h: nat)
    requires
        aw > 0,
        ah > 0,
        w > 0,
        h > 0,
        ah * w <= aw * 0xffff_ffff,
        aw * h <= ah * 0xffff_ffff,
    ensures
        ({
            let (rw, rh) = cover_size(aw, ah, w, h);
            &&& rw >= w
            &&& rh >= h
            &&& w * ah >= h * aw ==> rw == w && rh * aw >= ah * w && (rh == h || (rh - 1) * aw < ah * w)
            &&& w * ah < h * aw ==> rh == h && rw * ah >= aw * h && (rw == w || (rw - 1) * ah < aw * h)
        }),
{
    let (rw, rh) = cover_size(aw, ah, w, h);
    if w * ah >= h * aw {
        let c = ceil_div(ah * w, aw);
        lemma_ceil_div(ah * w, aw, 0xffff_ffff);
        assert(saturate_u32(c) == c);
        assert(rw == w);
        if c < h {
            assert(rh == h);
            assert(h * aw >= c * aw) by (nonlinear_arith)
                requires
                    c < h,
            ;
        } else {
            assert(rh == c);
        }
    } else {
        let c = ceil_div(aw * h, ah);
        lemma_ceil_div(aw * h, ah, 0xffff_ffff);
        assert(saturate_u32(c) == c);
        assert(rh == h);
        if c < w {
            assert(rw == w);
            assert(w * ah >= c * ah) by (nonlinear_arith)
                requires
                    c < w,
            ;
        } else {
            assert(rw == c);
        }
    }
}

proof fn lemma_ceil_div(a: nat, b: nat, bound: nat)
    requires
        b > 0,
        a <= b * bound,
    ensures
        ceil_div(a, b) * b >= a,
        ceil_div(a, b) == 0 || (ceil_div(a, b) - 1) * b < a,
        ceil_div(a, b) <= bound,
{
    let q = ceil_div(a, b) as int;
    let n = (a + b - 1) as int;
    vstd::arithmetic::div_mod::lemma_fundamental_div_mod(n, b as int);
    let r = n % (b as int);
    assert(n == (b as int) * q + r);
    assert(0 <= r < b);
    assert(q * b >= a) by (nonlinear_arith)
        requires
            n == (b as int) * q + r,
            n == a + b - 1,
            0 <= r < b,
    ;
    assert(q == 0 || (q - 1) * b < a) by (nonlinear_arith)
        requires
            n == (b as int) * q + r,
            n == a + b - 1,
            0 <= r,
            b > 0,
    ;
    assert(q <= bound) by (nonlinear_arith)
        requires
            q * b >= a,
            q == 0 || (q - 1) * b < a,
            a <= b * bound,
            b > 0,
    ;
}

/// A slot receives the centre of the scaled artwork, unresampled: the
/// slot's pixel `(x, y)` is the scaled raster's pixel shifted by half the
/// overhang in each direction, and at the artwork's own cover size that
/// raster is the artwork's pixels themselves.
pub proof fn lemma_cover_takes_the_centre(
    aw: u32,
    ah: u32,
    rgba: Seq<u8>,
    w: nat,
    h: nat,
    resized: Seq<u8>,
    x: nat,
    y: nat,
    c: nat,
)
    requires
        x < w,
        y < h,
        c < 4,
        cover_size(aw as nat, ah as nat, w, h).0 >= w,
        cover_size(aw as nat, ah as nat, w, h).1 >= h,
    ensures
        ({
            let (rw, rh) = cover_size(aw as nat, ah as nat, w, h);
            let px = cover_pixels(aw, ah, rgba, w, h, resized);
            let src = ((y + (rh - h) / 2) * rw + x + (rw - w) / 2) * 4 + c;
            &&& px.len() == w * h * 4
            &&& (rw == aw && rh == ah && rgba.len() >= aw * ah * 4) ==> px[((y * w + x) * 4 + c) as int] == rgba[src as int]
            &&& !(rw == aw && rh == ah) ==> px[((y * w + x) * 4 + c) as int] == resized[src as int]
        }),
{
    let (rw, rh) = cover_size(aw as nat, ah as nat, w, h);
    let cx = ((rw - w) / 2) as nat;
    let cy = ((rh - h) / 2) as nat;
    let i = ((y * w + x) * 4 + c) as int;
    let row = (w * 4) as int;
    assert(i == y * row + (4 * x + c)) by (nonlinear_arith)
        requires
            i == (y * w + x) * 4 + c,
            row == w * 4,
    ;
    assert(0 <= 4 * x + c < row);
    vstd::arithmetic::div_mod::lemma_fundamental_div_mod_converse(i, row, y as int, (4 * x + c) as int);
    assert(i < w * h * 4) by (nonlinear_arith)
        requires
            i == (y * w + x) * 4 + c,
            x < w,
            y < h,
            c < 4,
    ;
    assert((cy + y) * (rw * 4) + cx * 4 + (4 * x + c) == ((y + cy) * rw + x + cx) * 4 + c) by (nonlinear_arith);
    let raw = if rw == aw && rh == ah { rgba.subrange(0, aw * ah * 4) } else { resized };
    let win = crop_window(raw, rw, w, h, cx, cy);
    assert(cover_pixels(aw, ah, rgba, w, h, resized) == win);
    assert(i / row == y && i % row == 4 * x + c);
    let src = ((y + cy) * rw + x + cx) * 4 + c;
    assert(win[i] == raw[src as int]);
    if rw == aw && rh == ah {
        assert(src < aw * ah * 4) by (nonlinear_arith)
            requires
                src == ((y + cy) * rw + x + cx) * 4 + c,
                y < h,
                x < w,
                c < 4,
                cy == (rh - h) / 2,
                cx == (rw - w) / 2,
                rw >= w,
                rh >= h,
                rw == aw,
                rh == ah,
        ;
        if rgba.len() >= aw * ah * 4 {
            assert(raw[src as int] == rgba[src as int]);
        }
    }
}

/// The effective resolution of artwork over a placement is the lower of
/// its horizontal and vertical resolutions (in thousandths of a ppi,
/// rounded down): at most each of them and equal to one; a placement
/// without area gives zero.
pub proof fn lemma_effective_ppi_is_the_lower(width_px: nat, height_px: nat, p: PlantPrepressPlacement)
    ensures
        p.width_um > 0 && p.height_um > 0 ==> ({
            let m = spec_effective_ppi_milli(width_px, height_px, p);
            let across = (width_px * 25_400_000) / (p.width_um as nat);
            let down = (height_px * 25_400_000) / (p.height_um as nat);
            &&& m <= across
            &&& m <= down
            &&& (m == across || m == down)
        }),
        !(p.width_um > 0 && p.height_um > 0) ==> spec_effective_ppi_milli(width_px, height_px, p) == 0,
{
}

/// Artwork goes on the bleed areas whenever the template has any: every
/// artwork placement is the placement of a bleed guide, and every bleed
/// guide's placement is one of them. Only a template with no bleed area
/// places artwork on its trim areas, and one with neither on its whole
/// sheet. Either way the placements come in sheet order.
pub proof fn lemma_artwork_goes_on_bleed(t: PlantTemplate)
    ensures
        (exists|i: int| 0 <= i < t.guides@.len() && #[trigger] is_placed_on(t.guides@[i], GuideLayerKind::Bleed)) ==> {
            &&& forall|k: int|
                0 <= k < spec_artwork_placements(t).len() ==> exists|i: int|
                    0 <= i < t.guides@.len() && #[trigger] is_placed_on(t.guides@[i], GuideLayerKind::Bleed)
                        && spec_guide_placement(t.guides@[i].geometry) == Some(#[trigger] spec_artwork_placements(t)[k])
            &&& forall|i: int|
                0 <= i < t.guides@.len() && #[trigger] is_placed_on(t.guides@[i], GuideLayerKind::Bleed)
                    ==> spec_artwork_placements(t).contains(spec_guide_placement(t.guides@[i].geometry)->0)
        },
        !(exists|i: int| 0 <= i < t.guides@.len() && #[trigger] is_placed_on(t.guides@[i], GuideLayerKind::Bleed))
            && (exists|i: int| 0 <= i < t.guides@.len() && #[trigger] is_placed_on(t.guides@[i], GuideLayerKind::Trim)) ==> {
            &&& forall|k: int|
                0 <= k < spec_artwork_placements(t).len() ==> exists|i: int|
                    0 <= i < t.guides@.len() && #[trigger] is_placed_on(t.guides@[i], GuideLayerKind::Trim)
                        && spec_guide_placement(t.guides@[i].geometry) == Some(#[trigger] spec_artwork_placements(t)[k])
            &&& forall|i: int|
                0 <= i < t.guides@.len() && #[trigger] is_placed_on(t.guides@[i], GuideLayerKind::Trim)
                    ==> spec_artwork_placements(t).contains(spec_guide_placement(t.guides@[i].geometry)->0)
        },
        !(exists|i: int| 0 <= i < t.guides@.len() && #[trigger] is_placed_on(t.guides@[i], GuideLayerKind::Bleed))
            && !(exists|i: int| 0 <= i < t.guides@.len() && #[trigger] is_placed_on(t.guides@[i], GuideLayerKind::Trim))
            ==> spec_artwork_placements(t) == seq![spec_rect_placement(t.document)],
        in_sheet_order(spec_artwork_placements(t)),
{
    lemma_layer_placements(t, GuideLayerKind::Bleed);
    lemma_layer_placements(t, GuideLayerKind::Trim);
    lemma_placements_sorted(layer_placements_in_order(t.guides@, GuideLayerKind::Bleed));
    lemma_placements_sorted(layer_placements_in_order(t.guides@, GuideLayerKind::Trim));
}

/// Whether a guide is on `layer` with a geometry that gives a placement.
pub open spec fn is_placed_on(g: TemplateGuide, layer: GuideLayerKind) -> bool {
    g.layer == layer && spec_guide_placement(g.geometry) is Some
}

proof fn lemma_in_order_placements(guides: Seq<TemplateGuide>, layer: GuideLayerKind)
    ensures
        forall|k: int|
            0 <= k < layer_placements_in_order(guides, layer).len() ==> exists|i: int|
                0 <= i < guides.len() && #[trigger] is_placed_on(guides[i], layer) && spec_guide_placement(
                    guides[i].geometry,
                ) == Some(#[trigger] layer_placements_in_order(guides, layer)[k]),
        forall|i: int|
            0 <= i < guides.len() && #[trigger] is_placed_on(guides[i], layer) ==> layer_placements_in_order(
                guides,
                layer,
            ).contains(spec_guide_placement(guides[i].geometry)->0),
        layer_placements_in_order(guides, layer).len() > 0 <==> exists|i: int|
            0 <= i < guides.len() && #[trigger] is_placed_on(guides[i], layer),
    decreases guides.len(),
{
    if guides.len() > 0 {
        let d = guides.drop_last();
        lemma_in_order_placements(d, layer);
        let rest = layer_placements_in_order(d, layer);
        let s = layer_placements_in_order(guides, layer);
        let last = guides.len() - 1;
        assert forall|k: int| 0 <= k < s.len() implies exists|i: int|
            0 <= i < guides.len() && #[trigger] is_placed_on(guides[i], layer) && spec_guide_placement(
                guides[i].geometry,
            ) == Some(#[trigger] s[k]) by {
            if k < rest.len() {
                assert(s[k] == rest[k]);
                let i = choose|i: int|
                    0 <= i < d.len() && #[trigger] is_placed_on(d[i], layer) && spec_guide_placement(d[i].geometry)
                        == Some(rest[k]);
                assert(d[i] == guides[i]);
            } else {
                assert(is_placed_on(guides[last], layer));
            }
        }
        assert forall|i: int| 0 <= i < guides.len() && #[trigger] is_placed_on(guides[i], layer) implies s.contains(
            spec_guide_placement(guides[i].geometry)->0,
        ) by {
            if i < last {
                assert(d[i] == guides[i]);
                assert(is_placed_on(d[i], layer));
                let k = choose|k: int| 0 <= k < rest.len() && rest[k] == spec_guide_placement(d[i].geometry)->0;
                assert(s[k] == rest[k]);
            } else {
                assert(s[s.len() - 1] == spec_guide_placement(guides[i].geometry)->0);
            }
        }
        assert(s.len() >= rest.len());
        if exists|i: int| 0 <= i < guides.len() && #[trigger] is_placed_on(guides[i], layer) {
            let i = choose|i: int| 0 <= i < guides.len() && #[trigger] is_placed_on(guides[i], layer);
            if i < last {
                assert(d[i] == guides[i]);
                assert(is_placed_on(d[i], layer));
                assert(rest.len() > 0);
            } else {
                assert(s.len() == rest.len() + 1);
            }
            assert(s.len() > 0);
        }
        if s.len() > 0 {
            if is_placed_on(guides[last], layer) {
                assert(exists|i: int| 0 <= i < guides.len() && #[trigger] is_placed_on(guides[i], layer));
            } else {
                assert(rest.len() > 0);
                let i = choose|i: int| 0 <= i < d.len() && #[trigger] is_placed_on(d[i], layer);
                assert(d[i] == guides[i]);
                assert(is_placed_on(guides[i], layer));
            }
        }
    }
}

proof fn lemma_layer_placements(t: PlantTemplate, layer: GuideLayerKind)
    ensures
        forall|k: int|
            0 <= k < spec_guide_layer_placements(t, layer).len() ==> exists|i: int|
                0 <= i < t.guides@.len() && #[trigger] is_placed_on(t.guides@[i], layer) && spec_guide_placement(
                    t.guides@[i].geometry,
                ) == Some(#[trigger] spec_guide_layer_placements(t, layer)[k]),
        forall|i: int|
            0 <= i < t.guides@.len() && #[trigger] is_placed_on(t.guides@[i], layer) ==> spec_guide_layer_placements(
                t,
                layer,
            ).contains(spec_guide_placement(t.guides@[i].geometry)->0),
        spec_guide_layer_placements(t, layer).len() > 0 <==> exists|i: int|
            0 <= i < t.guides@.len() && #[trigger] is_placed_on(t.guides@[i], layer),
{
    let s = layer_placements_in_order(t.guides@, layer);
    let sorted = spec_guide_layer_placements(t, layer);
    lemma_in_order_placements(t.guides@, layer);
    lemma_placements_sorted(s);
    broadcast use vstd::seq_lib::group_to_multiset_ensures;
    assert(sorted.len() == s.len()) by {
        assert(sorted.to_multiset().len() == s.to_multiset().len());
    }
    assert forall|k: int| 0 <= k < sorted.len() implies exists|i: int|
        0 <= i < t.guides@.len() && #[trigger] is_placed_on(t.guides@[i], layer) && spec_guide_placement(
            t.guides@[i].geometry,
        ) == Some(#[trigger] sorted[k]) by {
        assert(sorted.to_multiset().count(sorted[k]) > 0);
        assert(s.to_multiset().count(sorted[k]) > 0);
        assert(s.contains(sorted[k]));
        let j = choose|j: int| 0 <= j < s.len() && s[j] == sorted[k];
        assert(exists|i: int|
            0 <= i < t.guides@.len() && #[trigger] is_placed_on(t.guides@[i], layer) && spec_guide_placement(
                t.guides@[i].geometry,
            ) == Some(s[j]));
    }
    assert forall|i: int| 0 <= i < t.guides@.len() && #[trigger] is_placed_on(t.guides@[i], layer) implies sorted.contains(
        spec_guide_placement(t.guides@[i].geometry)->0,
    ) by {
        let p = spec_guide_placement(t.guides@[i].geometry)->0;
        assert(s.contains(p));
        assert(s.to_multiset().count(p) > 0);
        assert(sorted.to_multiset().count(p) > 0);
    }
}

/// A PDF whose text names an RGB or Lab colour space fails the preflight's
/// RGB check, saying that it holds such a marker, and one whose text names
/// none passes it.
pub proof fn lemma_rgb_markers_fail_preflight(
    job: PlantPrepressJob,
    plan: PlantPrepressPlan,
    pdf: Seq<u8>,
    channels: u8,
    has_icc: bool,
    method: Seq<char>,
)
    ensures
        ({
            let checks = spec_preflight_checks(job, plan, pdf, channels, has_icc, method);
            &&& checks.len() == 12
            &&& checks[8].0 == "no-rgb-objects"@
            &&& (pdf_has(pdf, "/DeviceRGB"@) || pdf_has(pdf, "/CalRGB"@) || pdf_has(pdf, "/Lab"@)) <==> checks[8].1
                == PlantPrepressPreflightStatus::Fail
            &&& checks[8].1 == PlantPrepressPreflightStatus::Fail ==> checks[8].3
                == "The emitted PDF object text contains an RGB/Lab color space marker."@
            &&& checks[8].1 == PlantPrepressPreflightStatus::Pass ==> checks[8].3
                == "The emitted PDF object text contains no DeviceRGB, CalRGB, or Lab color spaces."@
        }),
{
}

/// The plant README names `proof.pdf` as the proof file and
/// `plant-ready.pdf` as the production file, the proof line first.
pub proof fn lemma_readme_names_the_production_file(plan: PlantPrepressPlan)
    ensures
        exists|p: int, q: int|
            p < q && #[trigger] occurs_at(spec_pack_readme(plan), "- Proof file: `proof.pdf`"@, p) && #[trigger] occurs_at(
                spec_pack_readme(plan),
                "- Production file: `plant-ready.pdf`"@,
                q,
            ),
{
    reveal_strlit("- Proof file: `proof.pdf`");
    reveal_strlit("- Proof file: `");
    reveal_strlit("proof.pdf");
    reveal_strlit("`");
    reveal_strlit("- Production file: `plant-ready.pdf`");
    reveal_strlit("- Production file: `");
    reveal_strlit("plant-ready.pdf");
    let head = readme_head(plan);
    let rest = readme_rest(plan);
    let proof_line = "- Proof file: `"@ + "proof.pdf"@ + "`"@;
    let mid = ", visible guides and calibration marks for human approval only.\n"@;
    let prod_line = "- Production file: `"@ + "plant-ready.pdf"@ + "`"@;
    assert(readme_files() =~= proof_line + mid + prod_line);
    assert(proof_line =~= "- Proof file: `proof.pdf`"@);
    assert(prod_line =~= "- Production file: `plant-ready.pdf`"@);
    lemma_occurs_in_middle(head, proof_line, mid + prod_line + rest);
    lemma_occurs_in_middle(head + proof_line + mid, prod_line, rest);
    assert(spec_pack_readme(plan) =~= head + proof_line + (mid + prod_line + rest));
    assert(spec_pack_readme(plan) =~= head + proof_line + mid + prod_line + rest);
    let p = head.len() as int;
    let q = (head.len() + proof_line.len() + mid.len()) as int;
    assert(occurs_at(spec_pack_readme(plan), "- Proof file: `proof.pdf`"@, p));
    assert(occurs_at(spec_pack_readme(plan), "- Production file: `plant-ready.pdf`"@, q));
}

proof fn lemma_occurs_in_middle(pre: Seq<char>, needle: Seq<char>, post: Seq<char>)
    ensures
        occurs_at(pre + needle + post, needle, pre.len() as int),
{
    assert((pre + needle + post).subrange(pre.len() as int, (pre.len() + needle.len()) as int) =~= needle);
}

/// Painting artwork onto the page blends it by its alpha: a page byte the
/// area covers becomes the artwork pixel at that place laid over what was
/// there, replaced outright by an opaque pixel, left alone by a fully
/// transparent one, and otherwise landing between the two; a byte the area
/// does not cover is unchanged.
pub proof fn lemma_paint_blends_by_alpha(page: Seq<u8>, f: Seq<u8>, a: PixelArea, pw: nat, i: int)
    requires
        0 <= i < page.len(),
        f.len() == a.width * a.height * 4,
    ensures
        ({
            let r = paint_area_spec(page, Some(f), a, pw)[i];
            let n = area_index(a, i, pw);
            let s = f[n * 4 + i % 3];
            let alpha = f[n * 4 + 3];
            &&& !covers_page_byte(a, pw, i) ==> r == page[i]
            &&& covers_page_byte(a, pw, i) ==> {
                &&& alpha == 255 ==> r == s
                &&& alpha == 0 ==> r == page[i]
                &&& s <= page[i] ==> s <= r <= page[i]
                &&& page[i] <= s ==> page[i] <= r <= s
            }
        }),
{
    if covers_page_byte(a, pw, i) {
        lemma_index_bound(area_y(a, i, pw), area_x(a, i, pw), a.width as int, a.height as int);
        let n = area_index(a, i, pw);
        lemma_blend_between(f[n * 4 + i % 3], f[n * 4 + 3], page[i]);
    }
}

/// A circular slot or cutout paints only inside its ellipse: for an area at
/// least four pixels each way, its corner pixels stay unpainted while its
/// centre pixel is painted.
pub proof fn lemma_circles_clip_their_corners(a: PixelArea)
    requires
        a.circle,
        a.width >= 4,
        a.height >= 4,
    ensures
        !area_covers(a, 0, 0),
        !area_covers(a, a.width - 1, 0),
        !area_covers(a, 0, a.height - 1),
        !area_covers(a, a.width - 1, a.height - 1),
        area_covers(a, (a.width / 2) as int, (a.height / 2) as int),
{
    let w = a.width as int;
    let h = a.height as int;
    assert(16 * (w - 1) * (w - 1) >= 9 * w * w) by (nonlinear_arith)
        requires
            w >= 4,
    ;
    assert(16 * (h - 1) * (h - 1) >= 9 * h * h) by (nonlinear_arith)
        requires
            h >= 4,
    ;
    assert((1 - w) * (1 - w) * (h * h) + (1 - h) * (1 - h) * (w * w) > w * w * (h * h)) by (nonlinear_arith)
        requires
            16 * (w - 1) * (w - 1) >= 9 * w * w,
            16 * (h - 1) * (h - 1) >= 9 * h * h,
            w >= 4,
            h >= 4,
    ;
    assert((w - 1) * (w - 1) * (h * h) + (h - 1) * (h - 1) * (w * w) > w * w * (h * h)) by (nonlinear_arith)
        requires
            (1 - w) * (1 - w) * (h * h) + (1 - h) * (1 - h) * (w * w) > w * w * (h * h),
    ;
    assert((1 - w) * (1 - w) == (w - 1) * (w - 1)) by (nonlinear_arith);
    assert((1 - h) * (1 - h) == (h - 1) * (h - 1)) by (nonlinear_arith);
    assert(!in_ellipse(0, 0, w, h));
    assert(!in_ellipse(w - 1, 0, w, h)) by {
        assert(2 * (w - 1) + 1 - w == w - 1);
    }
    assert(!in_ellipse(0, h - 1, w, h)) by {
        assert(2 * (h - 1) + 1 - h == h - 1);
    }
    assert(!in_ellipse(w - 1, h - 1, w, h));
    let dx = 2 * (w / 2) + 1 - w;
    let dy = 2 * (h / 2) + 1 - h;
    assert(0 <= dx <= 1 && 0 <= dy <= 1);
    assert(dx * dx * (h * h) + dy * dy * (w * w) <= w * w * (h * h)) by (nonlinear_arith)
        requires
            0 <= dx <= 1,
            0 <= dy <= 1,
            w >= 4,
            h >= 4,
    ;
}

/// Whether placements are in sheet order.
pub open spec fn in_sheet_order(s: Seq<PlantPrepressPlacement>) -> bool {
    forall|i: int, j: int| 0 <= i < j < s.len() ==> placement_le(#[trigger] s[i], #[trigger] s[j])
}

proof fn lemma_insert_placement(s: Seq<PlantPrepressPlacement>, p: PlantPrepressPlacement)
    requires
        in_sheet_order(s),
    ensures
        in_sheet_order(insert_placement(s, p)),
        insert_placement(s, p).to_multiset() == s.to_multiset().insert(p),
    decreases s.len(),
{
    broadcast use vstd::seq_lib::group_to_multiset_ensures;
    if s.len() == 0 {
        assert(seq![p] == Seq::<PlantPrepressPlacement>::empty().push(p));
    } else if placement_le(s.last(), p) {
        let r = s.push(p);
        assert forall|i: int, j: int| 0 <= i < j < r.len() implies placement_le(#[trigger] r[i], #[trigger] r[j]) by {
            if j == s.len() {
                if i < s.len() - 1 {
                    assert(placement_le(s[i], s[s.len() - 1]));
                }
            }
        }
    } else {
        let front = s.drop_last();
        assert(in_sheet_order(front)) by {
            assert forall|i: int, j: int| 0 <= i < j < front.len() implies placement_le(#[trigger] front[i], #[trigger] front[j]) by {
                assert(front[i] == s[i] && front[j] == s[j]);
            }
        }
        lemma_insert_placement(front, p);
        let inner = insert_placement(front, p);
        let r = inner.push(s.last());
        assert(s == front.push(s.last()));
        assert forall|k: int| 0 <= k < inner.len() implies placement_le(#[trigger] inner[k], s.last()) by {
            assert(inner.to_multiset().count(inner[k]) > 0);
            assert(front.to_multiset().insert(p).count(inner[k]) > 0);
            if inner[k] != p {
                assert(front.to_multiset().count(inner[k]) > 0);
                assert(front.contains(inner[k]));
                let m = choose|m: int| 0 <= m < front.len() && front[m] == inner[k];
                assert(placement_le(s[m], s[s.len() - 1]));
            }
        }
        assert forall|i: int, j: int| 0 <= i < j < r.len() implies placement_le(#[trigger] r[i], #[trigger] r[j]) by {
            if j == inner.len() {
                assert(placement_le(inner[i], s.last()));
            } else {
                assert(r[i] == inner[i] && r[j] == inner[j]);
            }
        }
        assert(r.to_multiset() =~= s.to_multiset().insert(p));
    }
}

/// Guide placements come out in sheet order, top to bottom and then left
/// to right, and sorting keeps every placement (it only reorders them).
pub proof fn lemma_placements_sorted(s: Seq<PlantPrepressPlacement>)
    ensures
        in_sheet_order(sorted_placements(s)),
        sorted_placements(s).to_multiset() == s.to_multiset(),
    decreases s.len(),
{
    broadcast use vstd::seq_lib::group_to_multiset_ensures;
    if s.len() > 0 {
        lemma_placements_sorted(s.drop_last());
        lemma_insert_placement(sorted_placements(s.drop_last()), s.last());
        assert(s == s.drop_last().push(s.last()));
    }
}

} // verus!
