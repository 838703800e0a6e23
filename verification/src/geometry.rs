//! Sheet geometry: placements from template guides, and the conversions from
//! micrometres to pixels at a target resolution.
use crate::model::{
    ArtworkInfo, CircleUm, GuideGeometry, GuideLayerKind, PlantPrepressPlacement,
    PlantPrepressPlacementShape, PlantTemplate, RecordPlantTemplateKind, RectUm, TemplateGuide,
};
use vstd::prelude::*;

verus! {

/// Micrometres per inch.
pub const UM_PER_INCH: u64 = 25400;

/// The page or slot size in whole pixels: the size at `dpi` rounded up, at
/// least one pixel, negative sizes counting as zero, saturated at `u32::MAX`.
pub open spec fn spec_mm_to_px(um: int, dpi: nat) -> nat {
    let v: int = if um > 0 { um } else { 0 };
    let px: int = (v * dpi + 25399) / 25400;
    let at_least_one: int = if px < 1 { 1 } else { px };
    if at_least_one > 0xffff_ffff { 0xffff_ffffnat } else { at_least_one as nat }
}

/// Rounds `n / d` (with `d > 0`) to the nearest integer, halves away from zero.
pub open spec fn round_div(n: int, d: int) -> int {
    if n >= 0 {
        (n + d / 2) / d
    } else {
        -((-n + d / 2) / d)
    }
}

/// The pixel position of an offset at `dpi`, rounded to the nearest pixel
/// (halves away from zero) and saturated to the `i64` range.
pub open spec fn spec_mm_to_px_offset(um: int, dpi: nat) -> int {
    let r = round_div(um * dpi, 25400);
    if r > i64::MAX {
        i64::MAX as int
    } else if r < i64::MIN {
        i64::MIN as int
    } else {
        r
    }
}

/// The artwork's effective resolution over a placement, in thousandths of a
/// pixel per inch rounded down: the smaller of the horizontal and vertical
/// resolutions, or zero when the placement has no area.
pub open spec fn spec_effective_ppi_milli(width_px: nat, height_px: nat, placement: PlantPrepressPlacement) -> nat {
    if placement.width_um > 0 && placement.height_um > 0 {
        let h = (width_px * 25_400_000) / (placement.width_um as nat);
        let v = (height_px * 25_400_000) / (placement.height_um as nat);
        if h <= v { h } else { v }
    } else {
        0
    }
}

/// Whether the effective resolution is exactly its thousandths: the
/// smaller of the two resolutions divides out with no remainder (a
/// placement without area gives exactly zero).
pub open spec fn spec_effective_ppi_exact(width_px: nat, height_px: nat, placement: PlantPrepressPlacement) -> bool {
    if placement.width_um > 0 && placement.height_um > 0 {
        if width_px * (placement.height_um as nat) <= height_px * (placement.width_um as nat) {
            (width_px * 25_400_000) % (placement.width_um as nat) == 0
        } else {
            (height_px * 25_400_000) % (placement.height_um as nat) == 0
        }
    } else {
        true
    }
}

/// The size of a length at `dpi` in whole pixels (rounded up, at least one).
pub fn mm_to_px(um: i64, dpi: u16) -> (px: u32)
    ensures
        px == spec_mm_to_px(um as int, dpi as nat),
{
    let v: u128 = if um > 0 { um as u128 } else { 0 };
    assert(v * (dpi as u128) <= 0x7fff_ffff_ffff_ffff * 0xffff) by (nonlinear_arith)
        requires v <= 0x7fff_ffff_ffff_ffff, dpi <= 0xffff;
    let px: u128 = (v * (dpi as u128) + 25399) / 25400;
    let at_least_one: u128 = if px < 1 { 1 } else { px };
    if at_least_one > 0xffff_ffff {
        0xffff_ffff
    } else {
        at_least_one as u32
    }
}

/// The pixel position of an offset at `dpi`, rounded to the nearest pixel.
pub fn mm_to_px_offset(um: i64, dpi: u16) -> (px: i64)
    ensures
        px == spec_mm_to_px_offset(um as int, dpi as nat),
{
    assert(-0x8000_0000_0000_0000 * 0xffff <= um * dpi <= 0x7fff_ffff_ffff_ffff * 0xffff) by (nonlinear_arith)
        requires -0x8000_0000_0000_0000 <= um <= 0x7fff_ffff_ffff_ffff, 0 <= dpi <= 0xffff;
    let n: i128 = (um as i128) * (dpi as i128);
    let r: i128 = if n >= 0 {
        (n + 12700) / 25400
    } else {
        -((-n + 12700) / 25400)
    };
    if r > i64::MAX as i128 {
        i64::MAX
    } else if r < i64::MIN as i128 {
        i64::MIN
    } else {
        r as i64
    }
}

/// The artwork's effective resolution over a placement, in thousandths of a
/// pixel per inch (rounded down).
pub fn effective_ppi(info: &ArtworkInfo, placement: PlantPrepressPlacement) -> (ppi: u64)
    ensures
        ppi == spec_effective_ppi_milli(info.width_px as nat, info.height_px as nat, placement),
{
    if placement.width_um > 0 && placement.height_um > 0 {
        let wn: u64 = (info.width_px as u64) * 25_400_000;
        let hn: u64 = (info.height_px as u64) * 25_400_000;
        let h = wn / (placement.width_um as u64);
        let v = hn / (placement.height_um as u64);
        if h <= v { h } else { v }
    } else {
        0
    }
}

/// Whether the artwork's effective resolution over a placement is exactly
/// its thousandths, with nothing after them.
pub fn effective_ppi_is_exact(info: &ArtworkInfo, placement: PlantPrepressPlacement) -> (exact: bool)
    ensures
        exact == spec_effective_ppi_exact(info.width_px as nat, info.height_px as nat, placement),
{
    if placement.width_um > 0 && placement.height_um > 0 {
        let w = info.width_px as u128;
        let h = info.height_px as u128;
        let pw = placement.width_um as u128;
        let ph = placement.height_um as u128;
        assert(w * ph <= 0xffff_ffff * 0x7fff_ffff_ffff_ffff && h * pw <= 0xffff_ffff * 0x7fff_ffff_ffff_ffff)
            by (nonlinear_arith)
            requires
                w <= 0xffff_ffff,
                h <= 0xffff_ffff,
                pw <= 0x7fff_ffff_ffff_ffff,
                ph <= 0x7fff_ffff_ffff_ffff,
        ;
        if w * ph <= h * pw {
            (w * 25_400_000) % pw == 0
        } else {
            (h * 25_400_000) % ph == 0
        }
    } else {
        true
    }
}

/// The placement covering a rectangle.
pub open spec fn spec_rect_placement(rect: RectUm) -> PlantPrepressPlacement {
    PlantPrepressPlacement {
        x_um: rect.x as i64,
        y_um: rect.y as i64,
        width_um: rect.width as i64,
        height_um: rect.height as i64,
        shape: PlantPrepressPlacementShape::Rect,
    }
}

/// The placement bounding a circle: its box, marked as circular.
pub open spec fn spec_circle_placement(circle: CircleUm) -> PlantPrepressPlacement {
    PlantPrepressPlacement {
        x_um: (circle.cx - circle.radius) as i64,
        y_um: (circle.cy - circle.radius) as i64,
        width_um: (2 * circle.radius) as i64,
        height_um: (2 * circle.radius) as i64,
        shape: PlantPrepressPlacementShape::Circle,
    }
}

/// The placement a guide's geometry gives, if it is a circle or a rectangle.
pub open spec fn spec_guide_placement(geometry: GuideGeometry) -> Option<PlantPrepressPlacement> {
    match geometry {
        GuideGeometry::Circle { circle } => Some(spec_circle_placement(circle)),
        GuideGeometry::Rect { rect } => Some(spec_rect_placement(rect)),
        GuideGeometry::Other => None,
    }
}

/// Sheet order: top to bottom, then left to right.
pub open spec fn placement_le(a: PlantPrepressPlacement, b: PlantPrepressPlacement) -> bool {
    a.y_um < b.y_um || (a.y_um == b.y_um && a.x_um <= b.x_um)
}

/// Inserts `p` into sorted `s` after every placement that does not come
/// after it, so equal positions keep their order.
pub open spec fn insert_placement(s: Seq<PlantPrepressPlacement>, p: PlantPrepressPlacement) -> Seq<PlantPrepressPlacement>
    decreases s.len(),
{
    if s.len() == 0 {
        seq![p]
    } else if placement_le(s.last(), p) {
        s.push(p)
    } else {
        insert_placement(s.drop_last(), p).push(s.last())
    }
}

/// The placements in sheet order (a stable sort on top, then left).
pub open spec fn sorted_placements(s: Seq<PlantPrepressPlacement>) -> Seq<PlantPrepressPlacement>
    decreases s.len(),
{
    if s.len() == 0 {
        Seq::empty()
    } else {
        insert_placement(sorted_placements(s.drop_last()), s.last())
    }
}

/// The placements of the guides on `layer`, in guide order.
pub open spec fn layer_placements_in_order(guides: Seq<TemplateGuide>, layer: GuideLayerKind) -> Seq<PlantPrepressPlacement>
    decreases guides.len(),
{
    if guides.len() == 0 {
        Seq::empty()
    } else {
        let rest = layer_placements_in_order(guides.drop_last(), layer);
        let g = guides.last();
        if g.layer == layer && spec_guide_placement(g.geometry) is Some {
            rest.push(spec_guide_placement(g.geometry)->0)
        } else {
            rest
        }
    }
}

/// The placements of the guides on `layer`, in sheet order.
pub open spec fn spec_guide_layer_placements(template: PlantTemplate, layer: GuideLayerKind) -> Seq<PlantPrepressPlacement> {
    sorted_placements(layer_placements_in_order(template.guides@, layer))
}

/// The no-print cutouts: hole and dink guides, except on centre and picture
/// labels, whose hole rings are proof guides only.
pub open spec fn spec_template_cutouts(template: PlantTemplate) -> Seq<PlantPrepressPlacement> {
    if template.kind == RecordPlantTemplateKind::CenterLabel || template.kind
        == RecordPlantTemplateKind::PictureLabel {
        Seq::empty()
    } else {
        sorted_placements(
            spec_guide_layer_placements(template, GuideLayerKind::Hole)
                + spec_guide_layer_placements(template, GuideLayerKind::Dink),
        )
    }
}

/// Where artwork goes: the bleed areas, else the trim areas, else the whole
/// sheet.
pub open spec fn spec_artwork_placements(template: PlantTemplate) -> Seq<PlantPrepressPlacement> {
    let bleed = spec_guide_layer_placements(template, GuideLayerKind::Bleed);
    let trim = spec_guide_layer_placements(template, GuideLayerKind::Trim);
    if bleed.len() > 0 {
        bleed
    } else if trim.len() > 0 {
        trim
    } else {
        seq![spec_rect_placement(template.document)]
    }
}

pub fn rect_placement(rect: RectUm) -> (p: PlantPrepressPlacement)
    ensures
        p == spec_rect_placement(rect),
{
    PlantPrepressPlacement {
        x_um: rect.x as i64,
        y_um: rect.y as i64,
        width_um: rect.width as i64,
        height_um: rect.height as i64,
        shape: PlantPrepressPlacementShape::Rect,
    }
}

fn guide_placement(geometry: GuideGeometry) -> (p: Option<PlantPrepressPlacement>)
    ensures
        p == spec_guide_placement(geometry),
{
    match geometry {
        GuideGeometry::Circle { circle } => Some(
            PlantPrepressPlacement {
                x_um: circle.cx as i64 - circle.radius as i64,
                y_um: circle.cy as i64 - circle.radius as i64,
                width_um: 2 * (circle.radius as i64),
                height_um: 2 * (circle.radius as i64),
                shape: PlantPrepressPlacementShape::Circle,
            },
        ),
        GuideGeometry::Rect { rect } => Some(rect_placement(rect)),
        GuideGeometry::Other => None,
    }
}

fn placement_le_exec(a: &PlantPrepressPlacement, b: &PlantPrepressPlacement) -> (r: bool)
    ensures
        r == placement_le(*a, *b),
{
    a.y_um < b.y_um || (a.y_um == b.y_um && a.x_um <= b.x_um)
}

fn insert_placement_exec(out: &mut Vec<PlantPrepressPlacement>, p: PlantPrepressPlacement)
    ensures
        final(out)@ == insert_placement(old(out)@, p),
    decreases old(out)@.len(),
{
    let n = out.len();
    if n == 0 || placement_le_exec(&out[n - 1], &p) {
        out.push(p);
    } else {
        let last = out.pop().unwrap();
        insert_placement_exec(out, p);
        out.push(last);
    }
}

/// Sorts placements into sheet order, keeping equal positions in order.
pub fn sort_placements(v: Vec<PlantPrepressPlacement>) -> (out: Vec<PlantPrepressPlacement>)
    ensures
        out@ == sorted_placements(v@),
{
    let mut out: Vec<PlantPrepressPlacement> = Vec::new();
    let mut i: usize = 0;
    while i < v.len()
        invariant
            i <= v@.len(),
            out@ == sorted_placements(v@.take(i as int)),
        decreases v@.len() - i,
    {
        insert_placement_exec(&mut out, v[i]);
        i = i + 1;
        assert(v@.take(i as int).drop_last() == v@.take(i - 1));
    }
    assert(v@.take(v@.len() as int) == v@);
    out
}

/// The placements of the guides on `layer`, in sheet order.
pub fn guide_layer_placements(template: &PlantTemplate, layer: GuideLayerKind) -> (out: Vec<PlantPrepressPlacement>)
    ensures
        out@ == spec_guide_layer_placements(*template, layer),
{
    let guides = &template.guides;
    let mut found: Vec<PlantPrepressPlacement> = Vec::new();
    let mut i: usize = 0;
    while i < guides.len()
        invariant
            i <= guides@.len(),
            guides@ == template.guides@,
            found@ == layer_placements_in_order(guides@.take(i as int), layer),
        decreases guides@.len() - i,
    {
        let g = &guides[i];
        assert(guides@.take(i + 1).drop_last() == guides@.take(i as int));
        if g.layer == layer {
            match guide_placement(g.geometry) {
                Some(p) => found.push(p),
                None => {},
            }
        }
        i = i + 1;
    }
    assert(guides@.take(guides@.len() as int) == guides@);
    sort_placements(found)
}

/// The template's no-print cutouts in sheet order.
pub fn template_cutouts(template: &PlantTemplate) -> (out: Vec<PlantPrepressPlacement>)
    ensures
        out@ == spec_template_cutouts(*template),
{
    if template.kind == RecordPlantTemplateKind::CenterLabel || template.kind
        == RecordPlantTemplateKind::PictureLabel {
        return Vec::new();
    }
    let mut cutouts = guide_layer_placements(template, GuideLayerKind::Hole);
    let mut dinks = guide_layer_placements(template, GuideLayerKind::Dink);
    cutouts.append(&mut dinks);
    sort_placements(cutouts)
}

/// The template's safety areas in sheet order.
pub fn template_safety_areas(template: &PlantTemplate) -> (out: Vec<PlantPrepressPlacement>)
    ensures
        out@ == spec_guide_layer_placements(*template, GuideLayerKind::Safety),
{
    guide_layer_placements(template, GuideLayerKind::Safety)
}

/// Where the template puts artwork: its bleed areas, else its trim areas,
/// else the whole sheet.
pub fn artwork_placements(template: &PlantTemplate) -> (out: Vec<PlantPrepressPlacement>)
    ensures
        out@ == spec_artwork_placements(*template),
        out@.len() > 0,
{
    let bleed = guide_layer_placements(template, GuideLayerKind::Bleed);
    if bleed.len() > 0 {
        return bleed;
    }
    let trim = guide_layer_placements(template, GuideLayerKind::Trim);
    if trim.len() > 0 {
        return trim;
    }
    let mut out = Vec::new();
    out.push(rect_placement(template.document));
    out
}

} // verus!
