//! The page raster: artwork scaled to cover each slot, composited over a
//! white page with its alpha, clipped to circular slots, with the template's
//! cutouts painted white again; and the conversions of that raster to the
//! channels the plant prints.
use crate::codec::{lanczos3_resampled, resize_lanczos3};
use crate::geometry::{mm_to_px, mm_to_px_offset, spec_mm_to_px, spec_mm_to_px_offset};
use crate::model::{
    PlantPrepressExportError, PlantPrepressPlacement, PlantPrepressPlacementShape, PlantPrepressPlan,
};
use crate::text::{chars_eq, chars_of, push_str, string_from_chars};
use vstd::prelude::*;

verus! {

/// A slot's artwork decoded to RGBA8 pixels, row by row.
pub struct DecodedArtwork {
    pub slot_id: String,
    pub width: u32,
    pub height: u32,
    pub rgba: Vec<u8>,
}

/// `width * height * channels` when it fits in `usize`, checked one product
/// at a time.
pub open spec fn image_len_fits(width: nat, height: nat, channels: nat) -> bool {
    width * height <= usize::MAX && width * height * channels <= usize::MAX
}

/// The byte length of a `width` x `height` raster with `channels` bytes per
/// pixel, or an error naming the raster when that length does not fit.
pub fn checked_image_len(width: usize, height: usize, channels: usize, label: &str) -> (res: Result<usize, PlantPrepressExportError>)
    ensures
        match res {
            Ok(n) => image_len_fits(width as nat, height as nat, channels as nat) && n == width
                * height * channels,
            Err(e) => !image_len_fits(width as nat, height as nat, channels as nat)
                && e.spec_message() == label@ + " is too large"@,
        },
{
    let pixels = width.checked_mul(height);
    let total = match pixels {
        Some(p) => p.checked_mul(channels),
        None => None,
    };
    match total {
        Some(n) => Ok(n),
        None => {
            let mut m: Vec<char> = Vec::new();
            push_str(&mut m, label);
            push_str(&mut m, " is too large");
            Err(PlantPrepressExportError::new(string_from_chars(m.as_slice())))
        },
    }
}

/// The luma of one sRGB pixel, with the ITU-R BT.601 weights, rounded down.
pub open spec fn luma(r: u8, g: u8, b: u8) -> u8 {
    ((r * 299 + g * 587 + b * 114) / 1000) as u8
}

/// One gray byte per whole RGB pixel; a trailing partial pixel is dropped.
pub open spec fn spec_rgb_to_grayscale(rgb: Seq<u8>) -> Seq<u8> {
    Seq::new(rgb.len() / 3, |p: int| luma(rgb[3 * p], rgb[3 * p + 1], rgb[3 * p + 2]))
}

/// Converts an sRGB raster to grayscale luma.
pub fn rgb_to_grayscale(rgb: &[u8]) -> (out: Vec<u8>)
    ensures
        out@ == spec_rgb_to_grayscale(rgb@),
{
    let mut out: Vec<u8> = Vec::new();
    let len = rgb.len();
    let n = len / 3;
    let mut p: usize = 0;
    while p < n
        invariant
            len == rgb@.len(),
            n == rgb@.len() / 3,
            p <= n,
            out@ == spec_rgb_to_grayscale(rgb@).take(p as int),
        decreases n - p,
    {
        assert(3 * p + 2 < rgb@.len());
        let base: usize = 3 * p;
        let r = rgb[base] as u32;
        let g = rgb[base + 1] as u32;
        let b = rgb[base + 2] as u32;
        out.push(((r * 299 + g * 587 + b * 114) / 1000) as u8);
        p = p + 1;
        assert(out@ =~= spec_rgb_to_grayscale(rgb@).take(p as int));
    }
    assert(spec_rgb_to_grayscale(rgb@).take(n as int) =~= spec_rgb_to_grayscale(rgb@));
    out
}

/// `ceil(a / b)` for `b > 0`.
pub open spec fn ceil_div(a: nat, b: nat) -> nat {
    ((a + b - 1) / (b as int)) as nat
}

/// A pixel count as `f64 as u32` leaves it: at most `u32::MAX`.
pub open spec fn saturate_u32(x: nat) -> nat {
    if x > u32::MAX { u32::MAX as nat } else { x }
}

/// The size the artwork is scaled to so that it covers a `width` x `height`
/// slot: by the larger of the two ratios, rounded up, never below the slot.
pub open spec fn cover_size(art_width: nat, art_height: nat, width: nat, height: nat) -> (nat, nat) {
    if width * art_height >= height * art_width {
        let h = saturate_u32(ceil_div(art_height * width, art_width));
        (width, if h >= height { h } else { height })
    } else {
        let w = saturate_u32(ceil_div(art_width * height, art_height));
        (if w >= width { w } else { width }, height)
    }
}

/// The centred `width` x `height` window of a raster `stride` pixels wide,
/// starting at pixel `(crop_x, crop_y)`.
pub open spec fn crop_window(raw: Seq<u8>, stride: nat, width: nat, height: nat, crop_x: nat, crop_y: nat) -> Seq<u8> {
    Seq::new(
        width * height * 4,
        |i: int| raw[(crop_y + i / ((width * 4) as int)) * (stride * 4) + crop_x * 4 + i % ((width * 4) as int)],
    )
}

/// Why an artwork cannot be scaled to cover a `width` x `height` slot, if
/// it cannot: no area, a pixel buffer shorter than the artwork's size, or a
/// scaled raster too large to allocate.
pub open spec fn cover_refusal(art_width: u32, art_height: u32, rgba_len: nat, width: nat, height: nat) -> Option<Seq<char>> {
    if width == 0 || height == 0 || art_width == 0 || art_height == 0 {
        Some("artwork or placement has zero size"@)
    } else if rgba_len < art_width * art_height * 4 {
        Some("decoded artwork RGBA buffer is invalid"@)
    } else {
        let (rw, rh) = cover_size(art_width as nat, art_height as nat, width, height);
        if art_width * rh * 16 > isize::MAX || rw * rh * 4 > isize::MAX {
            Some("resized artwork is too large"@)
        } else {
            None
        }
    }
}

/// What a slot receives of its artwork: the centred `width` x `height`
/// window of the artwork scaled to its cover size. At the artwork's own
/// size that raster is the artwork's pixels; at any other size it is
/// `resized`, the Lanczos3 resample.
pub open spec fn cover_pixels(art_width: u32, art_height: u32, rgba: Seq<u8>, width: nat, height: nat, resized: Seq<u8>) -> Seq<u8> {
    let (rw, rh) = cover_size(art_width as nat, art_height as nat, width, height);
    let raw = if rw == art_width && rh == art_height {
        rgba.subrange(0, art_width * art_height * 4)
    } else {
        resized
    };
    crop_window(raw, rw, width, height, ((rw - width) / 2) as nat, ((rh - height) / 2) as nat)
}

/// Whether `resized` is a Lanczos3 resample of the artwork's pixels to
/// its cover size: a raster the `image` resize can give for them, of that
/// size's byte length.
pub open spec fn resample_fits(art_width: u32, art_height: u32, rgba: Seq<u8>, width: nat, height: nat, resized: Seq<u8>) -> bool {
    let (rw, rh) = cover_size(art_width as nat, art_height as nat, width, height);
    &&& resized.len() == rw * rh * 4
    &&& lanczos3_resampled(rgba, art_width, art_height, rw as u32, rh as u32, resized)
}

proof fn lemma_crop_bounds(row: nat, k: nat, width: nat, height: nat, rw: nat, rh: nat, cx: nat, cy: nat)
    requires
        row < height,
        k < width * 4,
        width <= rw,
        height <= rh,
        cx == (rw - width) / 2,
        cy == (rh - height) / 2,
    ensures
        (cy + row) * (rw * 4) + cx * 4 + k < rw * rh * 4,
        row * (width * 4) + k < width * height * 4,
{
    assert(cx * 4 + k < rw * 4);
    assert(cy + row + 1 <= rh);
    assert((cy + row) * (rw * 4) + rw * 4 == (cy + row + 1) * (rw * 4)) by (nonlinear_arith);
    assert((cy + row + 1) * (rw * 4) <= rh * (rw * 4)) by (nonlinear_arith)
        requires
            cy + row + 1 <= rh,
    ;
    assert(rh * (rw * 4) == rw * rh * 4) by (nonlinear_arith);
    assert(row * (width * 4) + width * 4 == (row + 1) * (width * 4)) by (nonlinear_arith);
    assert((row + 1) * (width * 4) <= height * (width * 4)) by (nonlinear_arith)
        requires
            row + 1 <= height,
    ;
    assert(height * (width * 4) == width * height * 4) by (nonlinear_arith);
}

/// The centred `width` x `height` window of a `rw` x `rh` RGBA8 raster:
/// the crop that fits a scaled artwork to its slot.
pub fn cover_crop(raw: &[u8], rw: u32, rh: u32, width: u32, height: u32) -> (out: Vec<u8>)
    requires
        0 < width <= rw,
        0 < height <= rh,
        raw@.len() == rw * rh * 4,
    ensures
        out@ == crop_window(
            raw@,
            rw as nat,
            width as nat,
            height as nat,
            ((rw - width) / 2) as nat,
            ((rh - height) / 2) as nat,
        ),
{
    let n = raw.len();
    let cx: usize = ((rw - width) / 2) as usize;
    let cy: usize = ((rh - height) / 2) as usize;
    let ghost win = crop_window(raw@, rw as nat, width as nat, height as nat, cx as nat, cy as nat);
    assert(width * height * 4 <= rw * rh * 4) by (nonlinear_arith)
        requires
            width <= rw,
            height <= rh,
    ;
    assert(width * 4 <= rw * rh * 4 && rw * 4 <= rw * rh * 4) by (nonlinear_arith)
        requires
            width <= rw,
            rh >= 1,
    ;
    let row_len: usize = (width as usize) * 4;
    let stride: usize = (rw as usize) * 4;
    let mut out: Vec<u8> = Vec::new();
    let mut row: usize = 0;
    while row < height as usize
        invariant
            row <= height,
            width > 0,
            n == raw@.len(),
            row_len == width * 4,
            stride == rw * 4,
            width <= rw,
            height <= rh,
            cx == (rw - width) / 2,
            cy == (rh - height) / 2,
            raw@.len() == rw * rh * 4,
            win == crop_window(raw@, rw as nat, width as nat, height as nat, cx as nat, cy as nat),
            out@ == win.take(row * row_len),
        decreases height - row,
    {
        proof {
            lemma_crop_bounds(row as nat, 0, width as nat, height as nat, rw as nat, rh as nat, cx as nat, cy as nat);
        }
        let src_start: usize = (cy + row) * stride + cx * 4;
        let mut k: usize = 0;
        while k < row_len
            invariant
                row < height,
                n == raw@.len(),
                k <= row_len,
                row_len == width * 4,
                stride == rw * 4,
                width <= rw,
                height <= rh,
                cx == (rw - width) / 2,
                cy == (rh - height) / 2,
                raw@.len() == rw * rh * 4,
                win == crop_window(raw@, rw as nat, width as nat, height as nat, cx as nat, cy as nat),
                src_start == (cy + row) * (rw * 4) + cx * 4,
                out@ == win.take(row * row_len + k),
            decreases row_len - k,
        {
            proof {
                lemma_crop_bounds(row as nat, k as nat, width as nat, height as nat, rw as nat, rh as nat, cx as nat, cy as nat);
                vstd::arithmetic::div_mod::lemma_fundamental_div_mod_converse(
                    row * row_len + k,
                    row_len as int,
                    row as int,
                    k as int,
                );
            }
            out.push(raw[src_start + k]);
            k = k + 1;
            assert(out@ =~= win.take(row * row_len + k));
        }
        row = row + 1;
        assert(row * row_len == (row - 1) * row_len + row_len) by (nonlinear_arith);
    }
    assert(win.take(height * row_len) =~= win) by {
        assert(height * row_len == width * height * 4) by (nonlinear_arith)
            requires
                row_len == width * 4,
        ;
    }
    out
}

/// Scales an artwork to cover a `width` x `height` slot (Lanczos3, keeping
/// its aspect ratio) and crops the slot's window from the middle. Refuses a
/// slot or artwork without area, a pixel buffer shorter than the artwork's
/// size, and a scaled raster too large to allocate. The resampled values
/// are the `image` crate's; the crop around them is exact, and at the
/// artwork's own size the slot gets its pixels unchanged.
pub fn resize_cover_rgba(artwork: &DecodedArtwork, width: u32, height: u32) -> (res: Result<Vec<u8>, PlantPrepressExportError>)
    ensures
        match cover_refusal(artwork.width, artwork.height, artwork.rgba@.len(), width as nat, height as nat) {
            Some(m) => res matches Err(e) && e.spec_message() == m,
            None => res matches Ok(v) && exists|r: Seq<u8>|
                #![trigger cover_pixels(artwork.width, artwork.height, artwork.rgba@, width as nat, height as nat, r)]
                resample_fits(artwork.width, artwork.height, artwork.rgba@, width as nat, height as nat, r) && v@ == cover_pixels(
                    artwork.width,
                    artwork.height,
                    artwork.rgba@,
                    width as nat,
                    height as nat,
                    r,
                ),
        },
{
    let aw = artwork.width;
    let ah = artwork.height;
    if width == 0 || height == 0 || aw == 0 || ah == 0 {
        return Err(PlantPrepressExportError::new(crate::text::to_string("artwork or placement has zero size")));
    }
    assert((aw as u128) * (ah as u128) <= 0xffff_ffff * 0xffff_ffff) by (nonlinear_arith)
        requires
            aw <= 0xffff_ffff,
            ah <= 0xffff_ffff,
    ;
    if (artwork.rgba.len() as u128) < (aw as u128) * (ah as u128) * 4 {
        return Err(PlantPrepressExportError::new(crate::text::to_string("decoded artwork RGBA buffer is invalid")));
    }
    let w = width as u128;
    let h = height as u128;
    assert(w * (ah as u128) <= 0xffff_ffff * 0xffff_ffff && h * (aw as u128) <= 0xffff_ffff
        * 0xffff_ffff) by (nonlinear_arith)
        requires
            w <= 0xffff_ffff,
            h <= 0xffff_ffff,
            aw <= 0xffff_ffff,
            ah <= 0xffff_ffff,
    ;
    let (rw, rh): (u32, u32) = if w * (ah as u128) >= h * (aw as u128) {
        let c: u128 = ((ah as u128) * w + (aw as u128) - 1) / (aw as u128);
        let sat: u128 = if c > 0xffff_ffff { 0xffff_ffff } else { c };
        let rh: u128 = if sat >= h { sat } else { h };
        (width, rh as u32)
    } else {
        let c: u128 = (h * (aw as u128) + (ah as u128) - 1) / (ah as u128);
        let sat: u128 = if c > 0xffff_ffff { 0xffff_ffff } else { c };
        let rw: u128 = if sat >= w { sat } else { w };
        (rw as u32, height)
    };
    assert((rw as nat, rh as nat) == cover_size(aw as nat, ah as nat, width as nat, height as nat));
    assert((aw as u128) * (rh as u128) <= 0xffff_ffff * 0xffff_ffff) by (nonlinear_arith)
        requires
            aw <= 0xffff_ffff,
            rh <= 0xffff_ffff,
    ;
    assert((rw as u128) * (rh as u128) <= 0xffff_ffff * 0xffff_ffff) by (nonlinear_arith)
        requires
            rw <= 0xffff_ffff,
            rh <= 0xffff_ffff,
    ;
    if (aw as u128) * (rh as u128) * 16 > isize::MAX as u128 || (rw as u128) * (rh as u128) * 4 > isize::MAX as u128 {
        return Err(PlantPrepressExportError::new(crate::text::to_string("resized artwork is too large")));
    }
    let raw = resize_lanczos3(artwork.rgba.as_slice(), aw, ah, rw, rh);
    let out = cover_crop(raw.as_slice(), rw, rh, width, height);
    assert(resample_fits(aw, ah, artwork.rgba@, width as nat, height as nat, raw@));
    assert(out@ == cover_pixels(aw, ah, artwork.rgba@, width as nat, height as nat, raw@));
    Ok(out)
}

/// A slot or cutout in page pixels: its top-left corner (which may lie off
/// the page), its size, and whether only the inscribed ellipse counts.
#[derive(Clone, Copy, Debug, PartialEq, Eq, Structural)]
pub struct PixelArea {
    pub x: i64,
    pub y: i64,
    pub width: u32,
    pub height: u32,
    pub circle: bool,
}

/// Whether pixel `(sx, sy)` of a `w` x `h` box has its centre inside or on
/// the inscribed ellipse: `((sx + 0.5 - w/2) / (w/2))^2 + ((sy + 0.5 - h/2)
/// / (h/2))^2 <= 1`, multiplied out.
pub open spec fn in_ellipse(sx: int, sy: int, w: int, h: int) -> bool {
    let dx = 2 * sx + 1 - w;
    let dy = 2 * sy + 1 - h;
    dx * dx * (h * h) + dy * dy * (w * w) <= w * w * (h * h)
}

/// Whether the area paints its pixel `(sx, sy)`.
pub open spec fn area_covers(a: PixelArea, sx: int, sy: int) -> bool {
    &&& 0 <= sx < a.width
    &&& 0 <= sy < a.height
    &&& a.circle ==> in_ellipse(sx, sy, a.width as int, a.height as int)
}

/// The column of the pixel that byte `i` of an RGB page `pw` pixels wide
/// belongs to.
pub open spec fn pixel_x(i: int, pw: nat) -> int {
    (i / 3) % (pw as int)
}

/// The row of the pixel that byte `i` of an RGB page belongs to.
pub open spec fn pixel_y(i: int, pw: nat) -> int {
    (i / 3) / (pw as int)
}

/// The area's column under page byte `i`.
pub open spec fn area_x(a: PixelArea, i: int, pw: nat) -> int {
    pixel_x(i, pw) - a.x
}

/// The area's row under page byte `i`.
pub open spec fn area_y(a: PixelArea, i: int, pw: nat) -> int {
    pixel_y(i, pw) - a.y
}

/// The area's pixel number (row by row) under page byte `i`.
pub open spec fn area_index(a: PixelArea, i: int, pw: nat) -> int {
    area_y(a, i, pw) * a.width + area_x(a, i, pw)
}

/// One channel blended over the page: `(s * a + t * (255 - a) + 127) / 255`.
pub open spec fn blend(source: u8, alpha: u8, target: u8) -> u8 {
    ((source * alpha + target * (255 - alpha) + 127) / 255) as u8
}

/// Channel `c` of a page byte after area pixel `n` is painted over it: white
/// for a cutout (no source), else the source's RGBA pixel blended by its
/// alpha, a fully transparent pixel leaving the page as it was.
pub open spec fn paint(old: u8, source: Option<Seq<u8>>, n: int, c: int) -> u8 {
    match source {
        None => 255,
        Some(f) => if f[n * 4 + 3] == 0 {
            old
        } else {
            blend(f[n * 4 + c], f[n * 4 + 3], old)
        },
    }
}

/// The page after the area's first `k` pixels (row by row) are painted.
pub open spec fn paint_upto(page: Seq<u8>, source: Option<Seq<u8>>, a: PixelArea, pw: nat, k: int) -> Seq<u8> {
    Seq::new(
        page.len(),
        |i: int|
            if area_covers(a, area_x(a, i, pw), area_y(a, i, pw)) && area_index(a, i, pw) < k {
                paint(page[i], source, area_index(a, i, pw), i % 3)
            } else {
                page[i]
            },
    )
}

/// An RGB page `pw` pixels wide with the area painted: each page pixel the
/// area covers gets the area's pixel at the same place.
pub open spec fn paint_area_spec(page: Seq<u8>, source: Option<Seq<u8>>, a: PixelArea, pw: nat) -> Seq<u8> {
    paint_upto(page, source, a, pw, a.width * a.height)
}

proof fn lemma_pixel_decompose(j: int, pw: nat, ph: nat)
    requires
        pw > 0,
        0 <= j < pw * ph * 3,
    ensures
        0 <= j % 3 < 3,
        j == (pixel_y(j, pw) * pw + pixel_x(j, pw)) * 3 + j % 3,
        0 <= pixel_x(j, pw) < pw,
        0 <= pixel_y(j, pw) < ph,
{
    let p = j / 3;
    vstd::arithmetic::div_mod::lemma_fundamental_div_mod(j, 3);
    vstd::arithmetic::div_mod::lemma_fundamental_div_mod(p, pw as int);
    assert(p < pw * ph);
    let q = p / (pw as int);
    let r = p % (pw as int);
    assert(0 <= r < pw);
    assert(q >= 0) by {
        vstd::arithmetic::div_mod::lemma_div_pos_is_pos(p, pw as int);
    }
    assert(q < ph) by (nonlinear_arith)
        requires
            p == pw * q + r,
            0 <= r,
            p < pw * ph,
            pw > 0,
    ;
    assert(p == q * pw + r) by (nonlinear_arith)
        requires
            p == pw * q + r,
    ;
}

proof fn lemma_pixel_compose(pw: nat, px: int, py: int, c: int)
    requires
        0 <= px < pw,
        0 <= py,
        0 <= c < 3,
    ensures
        ((py * pw + px) * 3 + c) / 3 == py * pw + px,
        ((py * pw + px) * 3 + c) % 3 == c,
        pixel_x((py * pw + px) * 3 + c, pw) == px,
        pixel_y((py * pw + px) * 3 + c, pw) == py,
{
    let j = (py * pw + px) * 3 + c;
    vstd::arithmetic::div_mod::lemma_fundamental_div_mod_converse(j, 3, py * pw + px, c);
    vstd::arithmetic::div_mod::lemma_fundamental_div_mod_converse(py * pw + px, pw as int, py, px);
}

proof fn lemma_same_row(y1: int, x1: int, y2: int, x2: int, w: int)
    requires
        0 <= x1 < w,
        0 <= x2 < w,
        y1 * w + x1 == y2 * w + x2,
    ensures
        y1 == y2,
        x1 == x2,
{
    assert(y1 == y2) by (nonlinear_arith)
        requires
            0 <= x1 < w,
            0 <= x2 < w,
            y1 * w + x1 == y2 * w + x2,
    ;
}

pub proof fn lemma_index_bound(y: int, x: int, w: int, h: int)
    requires
        0 <= x < w,
        0 <= y < h,
    ensures
        0 <= y * w + x < w * h,
{
    assert(0 <= y * w + x < w * h) by (nonlinear_arith)
        requires
            0 <= x < w,
            0 <= y < h,
    ;
}

/// Painting one more area pixel: the page bytes of that pixel (when it is on
/// the page and covered) take the painted value, all others stay.
proof fn lemma_paint_step(
    old: Seq<u8>,
    cur: Seq<u8>,
    next: Seq<u8>,
    source: Option<Seq<u8>>,
    a: PixelArea,
    pw: nat,
    ph: nat,
    sx: int,
    sy: int,
)
    requires
        old.len() == pw * ph * 3,
        0 <= sx < a.width,
        0 <= sy < a.height,
        cur == paint_upto(old, source, a, pw, sy * a.width + sx),
        ({
            let px = a.x + sx;
            let py = a.y + sy;
            let base = (py * pw + px) * 3;
            if 0 <= px < pw && 0 <= py < ph && area_covers(a, sx, sy) {
                &&& next.len() == cur.len()
                &&& forall|j: int|
                    0 <= j < cur.len() ==> #[trigger] next[j] == if base <= j < base + 3 {
                        paint(cur[j], source, sy * a.width + sx, j - base)
                    } else {
                        cur[j]
                    }
            } else {
                next == cur
            }
        }),
    ensures
        next == paint_upto(old, source, a, pw, sy * a.width + sx + 1),
{
    let k = sy * a.width + sx;
    let target = paint_upto(old, source, a, pw, k + 1);
    if pw == 0 {
        assert(next =~= target);
    } else {
        let px = a.x + sx;
        let py = a.y + sy;
        let base = (py * pw + px) * 3;
        let painted = 0 <= px < pw && 0 <= py < ph && area_covers(a, sx, sy);
        assert(next.len() == target.len());
        assert forall|j: int| 0 <= j < next.len() implies next[j] == target[j] by {
            lemma_pixel_decompose(j, pw, ph);
            let cov = area_covers(a, area_x(a, j, pw), area_y(a, j, pw));
            let nj = area_index(a, j, pw);
            if cov && nj == k {
                lemma_same_row(area_y(a, j, pw), area_x(a, j, pw), sy, sx, a.width as int);
                assert(pixel_x(j, pw) == px && pixel_y(j, pw) == py);
                assert(painted);
                assert(base <= j < base + 3);
                assert(j - base == j % 3);
            } else {
                if painted && base <= j < base + 3 {
                    lemma_pixel_compose(pw, px, py, j - base);
                    assert(pixel_x(j, pw) == px && pixel_y(j, pw) == py);
                    assert(false);
                }
            }
        }
        assert(next =~= target);
    }
}

/// Skipping a row that lies off the page changes nothing.
proof fn lemma_paint_row_off_page(old: Seq<u8>, cur: Seq<u8>, source: Option<Seq<u8>>, a: PixelArea, pw: nat, ph: nat, sy: int)
    requires
        old.len() == pw * ph * 3,
        0 <= sy < a.height,
        a.y + sy < 0 || a.y + sy >= ph,
        cur == paint_upto(old, source, a, pw, sy * a.width),
    ensures
        cur == paint_upto(old, source, a, pw, (sy + 1) * a.width),
{
    let target = paint_upto(old, source, a, pw, (sy + 1) * a.width);
    if pw == 0 {
        assert(cur =~= target);
    } else {
        assert forall|j: int| 0 <= j < cur.len() implies cur[j] == target[j] by {
            lemma_pixel_decompose(j, pw, ph);
            let ax = area_x(a, j, pw);
            let ay = area_y(a, j, pw);
            let w = a.width as int;
            assert((sy + 1) * w == sy * w + w) by (nonlinear_arith);
            if area_covers(a, ax, ay) {
                if sy * w <= ay * w + ax && ay * w + ax < sy * w + w {
                    assert(ay == sy) by (nonlinear_arith)
                        requires
                            0 <= ax < w,
                            sy * w <= ay * w + ax,
                            ay * w + ax < sy * w + w,
                    ;
                    assert(pixel_y(j, pw) == a.y + sy);
                    assert(false);
                }
            }
        }
        assert(cur =~= target);
    }
}

fn in_ellipse_exec(sx: u32, sy: u32, w: u32, h: u32) -> (r: bool)
    requires
        sx < w,
        sy < h,
    ensures
        r == in_ellipse(sx as int, sy as int, w as int, h as int),
{
    let two_x: u128 = 2 * (sx as u128) + 1;
    let two_y: u128 = 2 * (sy as u128) + 1;
    let dx: u128 = if two_x >= w as u128 { two_x - w as u128 } else { w as u128 - two_x };
    let dy: u128 = if two_y >= h as u128 { two_y - h as u128 } else { h as u128 - two_y };
    let wl = w as u128;
    let hl = h as u128;
    assert(dx <= wl && dy <= hl);
    assert(dx * dx <= wl * wl && dy * dy <= hl * hl && wl * wl <= 0xffff_ffff * 0xffff_ffff && hl * hl <= 0xffff_ffff
        * 0xffff_ffff) by (nonlinear_arith)
        requires
            dx <= wl,
            dy <= hl,
            wl <= 0xffff_ffff,
            hl <= 0xffff_ffff,
    ;
    let w2 = wl * wl;
    let h2 = hl * hl;
    assert(dx * dx * h2 <= w2 * h2 && dy * dy * w2 <= h2 * w2 && w2 * h2 <= 0xffff_ffff_ffff_ffff_ffff_ffff_ffff_ffff) by (nonlinear_arith)
        requires
            dx * dx <= w2,
            dy * dy <= h2,
            w2 <= 0xffff_ffff * 0xffff_ffff,
            h2 <= 0xffff_ffff * 0xffff_ffff,
    ;
    let a = dx * dx * h2;
    let b = dy * dy * w2;
    let c = w2 * h2;
    proof {
        let sdx = 2 * sx + 1 - w;
        let sdy = 2 * sy + 1 - h;
        assert(sdx * sdx == dx * dx) by (nonlinear_arith)
            requires
                sdx == dx || sdx == -dx,
        ;
        assert(sdy * sdy == dy * dy) by (nonlinear_arith)
            requires
                sdy == dy || sdy == -dy,
        ;
        assert(w2 * h2 == (w as int) * (w as int) * ((h as int) * (h as int))) by (nonlinear_arith)
            requires
                w2 == wl * wl,
                h2 == hl * hl,
                wl == w,
                hl == h,
        ;
    }
    a <= c && b <= c - a
}

/// Paints an area onto an RGB page `pw` x `ph` pixels: with a source, the
/// source's RGBA pixels blended by their alpha; without one, white. Pixels
/// off the page, outside a circular area's ellipse, or fully transparent are
/// left alone.
fn paint_area(page: &mut Vec<u8>, source: Option<&[u8]>, a: PixelArea, pw: usize, ph: usize)
    requires
        old(page)@.len() == pw * ph * 3,
        source matches Some(f) ==> f@.len() == a.width * a.height * 4,
    ensures
        final(page)@ == paint_area_spec(old(page)@, crate::writers::opt_slice(source), a, pw as nat),
{
    let ghost old_page = page@;
    let ghost src = crate::writers::opt_slice(source);
    let w = a.width;
    let h = a.height;
    let mut sy: u32 = 0;
    while sy < h
        invariant
            sy <= h,
            w == a.width,
            h == a.height,
            old_page.len() == pw * ph * 3,
            page@.len() == pw * ph * 3,
            src == crate::writers::opt_slice(source),
            source matches Some(f) ==> f@.len() == a.width * a.height * 4,
            page@ == paint_upto(old_page, src, a, pw as nat, sy * w),
        decreases h - sy,
    {
        let page_y: i128 = a.y as i128 + sy as i128;
        if page_y < 0 || page_y >= ph as i128 {
            proof {
                lemma_paint_row_off_page(old_page, page@, src, a, pw as nat, ph as nat, sy as int);
            }
            sy = sy + 1;
            continue;
        }
        let mut sx: u32 = 0;
        while sx < w
            invariant
                sx <= w,
                sy < h,
                w == a.width,
                h == a.height,
                page_y == a.y + sy,
                0 <= page_y < ph,
                old_page.len() == pw * ph * 3,
                page@.len() == pw * ph * 3,
                src == crate::writers::opt_slice(source),
                source matches Some(f) ==> f@.len() == a.width * a.height * 4,
                page@ == paint_upto(old_page, src, a, pw as nat, sy * w + sx),
            decreases w - sx,
        {
            let ghost cur = page@;
            let page_x: i128 = a.x as i128 + sx as i128;
            if page_x >= 0 && page_x < pw as i128 && (!a.circle || in_ellipse_exec(sx, sy, w, h)) {
                proof {
                    lemma_index_bound(sy as int, sx as int, w as int, h as int);
                    lemma_index_bound(page_y as int, page_x as int, pw as int, ph as int);
                }
                let plen = page.len();
                assert((page_y * pw + page_x) * 3 + 3 <= pw * ph * 3) by (nonlinear_arith)
                    requires
                        page_y * pw + page_x < pw * ph,
                ;
                let base: usize = ((page_y as usize) * pw + page_x as usize) * 3;
                match source {
                    None => {
                        page.set(base, 255);
                        page.set(base + 1, 255);
                        page.set(base + 2, 255);
                    },
                    Some(f) => {
                        let flen = f.len();
                        assert((sy * w + sx) * 4 + 4 <= w * h * 4) by (nonlinear_arith)
                            requires
                                sy * w + sx < w * h,
                        ;
                        let n: usize = (sy as usize) * (w as usize) + sx as usize;
                        let alpha = f[n * 4 + 3] as u32;
                        if alpha != 0 {
                            let s0 = f[n * 4] as u32;
                            let t0 = page[base] as u32;
                            let s1 = f[n * 4 + 1] as u32;
                            let t1 = page[base + 1] as u32;
                            let s2 = f[n * 4 + 2] as u32;
                            let t2 = page[base + 2] as u32;
                            assert(s0 * alpha + t0 * (255 - alpha) + 127 <= 255 * 255 + 127
                                && s1 * alpha + t1 * (255 - alpha) + 127 <= 255 * 255 + 127
                                && s2 * alpha + t2 * (255 - alpha) + 127 <= 255 * 255 + 127) by (nonlinear_arith)
                                requires
                                    s0 <= 255,
                                    s1 <= 255,
                                    s2 <= 255,
                                    t0 <= 255,
                                    t1 <= 255,
                                    t2 <= 255,
                                    1 <= alpha <= 255,
                            ;
                            page.set(base, ((s0 * alpha + t0 * (255 - alpha) + 127) / 255) as u8);
                            page.set(base + 1, ((s1 * alpha + t1 * (255 - alpha) + 127) / 255) as u8);
                            page.set(base + 2, ((s2 * alpha + t2 * (255 - alpha) + 127) / 255) as u8);
                        }
                    },
                }
                proof {
                    let k = sy * w + sx;
                    assert forall|j: int| 0 <= j < cur.len() implies #[trigger] page@[j] == if base <= j < base + 3 {
                        paint(cur[j], src, k, j - base)
                    } else {
                        cur[j]
                    } by {}
                }
            }
            proof {
                lemma_paint_step(old_page, cur, page@, src, a, pw as nat, ph as nat, sx as int, sy as int);
            }
            sx = sx + 1;
        }
        sy = sy + 1;
        assert(sy * w == (sy - 1) * w + w) by (nonlinear_arith);
    }
    assert(h * w == w * h) by (nonlinear_arith);
}

/// A placement in page pixels at the plan's resolution.
pub open spec fn pixel_area(p: PlantPrepressPlacement, dpi: u16) -> PixelArea {
    PixelArea {
        x: spec_mm_to_px_offset(p.x_um as int, dpi as nat) as i64,
        y: spec_mm_to_px_offset(p.y_um as int, dpi as nat) as i64,
        width: spec_mm_to_px(p.width_um as int, dpi as nat) as u32,
        height: spec_mm_to_px(p.height_um as int, dpi as nat) as u32,
        circle: p.shape == PlantPrepressPlacementShape::Circle,
    }
}

fn pixel_area_exec(p: PlantPrepressPlacement, dpi: u16) -> (a: PixelArea)
    ensures
        a == pixel_area(p, dpi),
{
    PixelArea {
        x: mm_to_px_offset(p.x_um, dpi),
        y: mm_to_px_offset(p.y_um, dpi),
        width: mm_to_px(p.width_um, dpi),
        height: mm_to_px(p.height_um, dpi),
        circle: p.shape == PlantPrepressPlacementShape::Circle,
    }
}

/// The page with the given cutouts painted white, in order.
pub open spec fn mask_all(page: Seq<u8>, cutouts: Seq<PlantPrepressPlacement>, dpi: u16, pw: nat) -> Seq<u8>
    decreases cutouts.len(),
{
    if cutouts.len() == 0 {
        page
    } else {
        paint_area_spec(mask_all(page, cutouts.drop_last(), dpi, pw), None, pixel_area(cutouts.last(), dpi), pw)
    }
}

/// Paints the template's cutouts (the centre hole area of a label) white,
/// so no artwork prints where the plant punches the label. Only the page's
/// own `page_width_px * page_height_px * 3` bytes are painted; any bytes
/// after them are left as they are.
pub fn mask_cutouts(page_rgb: &mut Vec<u8>, plan: &PlantPrepressPlan) -> (res: Result<(), PlantPrepressExportError>)
    requires
        old(page_rgb)@.len() >= plan.page_width_px * plan.page_height_px * 3,
    ensures
        res is Ok,
        final(page_rgb)@ == mask_all(
            old(page_rgb)@.take(plan.page_width_px * plan.page_height_px * 3),
            plan.cutouts@,
            plan.target_dpi,
            plan.page_width_px as nat,
        ) + old(page_rgb)@.skip(plan.page_width_px * plan.page_height_px * 3),
        final(page_rgb)@.len() == old(page_rgb)@.len(),
{
    let ghost start = page_rgb@;
    let ghost n = plan.page_width_px * plan.page_height_px * 3;
    if plan.cutouts.len() == 0 {
        assert(start.take(n) + start.skip(n) =~= start);
        return Ok(());
    }
    let pw = plan.page_width_px as usize;
    let ph = plan.page_height_px as usize;
    let total = page_rgb.len();
    assert(pw * ph * 3 <= total);
    assert(pw * ph <= pw * ph * 3) by (nonlinear_arith);
    let page_len: usize = pw * ph * 3;
    let mut tail = page_rgb.split_off(page_len);
    assert(page_rgb@ == start.take(n));
    let mut i: usize = 0;
    while i < plan.cutouts.len()
        invariant
            i <= plan.cutouts@.len(),
            pw == plan.page_width_px,
            ph == plan.page_height_px,
            page_rgb@.len() == pw * ph * 3,
            page_rgb@ == mask_all(start.take(n), plan.cutouts@.take(i as int), plan.target_dpi, pw as nat),
        decreases plan.cutouts@.len() - i,
    {
        let a = pixel_area_exec(plan.cutouts[i], plan.target_dpi);
        paint_area(page_rgb, None, a, pw, ph);
        i = i + 1;
        assert(plan.cutouts@.take(i as int).drop_last() =~= plan.cutouts@.take(i - 1));
    }
    assert(plan.cutouts@.take(i as int) =~= plan.cutouts@);
    page_rgb.append(&mut tail);
    Ok(())
}

/// The artwork the page uses for a slot: the last one carrying its id.
pub open spec fn last_artwork(artworks: Seq<DecodedArtwork>, id: Seq<char>) -> Option<DecodedArtwork>
    decreases artworks.len(),
{
    if artworks.len() == 0 {
        None
    } else if artworks.last().slot_id@ == id {
        Some(artworks.last())
    } else {
        last_artwork(artworks.drop_last(), id)
    }
}

fn find_last_artwork(artworks: &[DecodedArtwork], id: &str) -> (r: Option<usize>)
    ensures
        match r {
            Some(k) => k < artworks@.len() && last_artwork(artworks@, id@) == Some(artworks@[k as int]),
            None => last_artwork(artworks@, id@) is None,
        },
{
    let want = chars_of(id);
    let mut n: usize = artworks.len();
    assert(artworks@.take(n as int) =~= artworks@);
    while n > 0
        invariant
            n <= artworks@.len(),
            want@ == id@,
            last_artwork(artworks@, id@) == last_artwork(artworks@.take(n as int), id@),
        decreases n,
    {
        let have = chars_of(artworks[n - 1].slot_id.as_str());
        assert(artworks@.take(n as int).last() == artworks@[n - 1]);
        assert(artworks@.take(n as int).drop_last() =~= artworks@.take(n - 1));
        if chars_eq(have.as_slice(), want.as_slice()) {
            return Some(n - 1);
        }
        n = n - 1;
    }
    None
}

/// The first reason one of the plan's first `n` slots cannot be placed: no
/// artwork carries its id, or its artwork cannot be scaled to cover it.
pub open spec fn compose_refusal(plan: PlantPrepressPlan, artworks: Seq<DecodedArtwork>, n: nat) -> Option<Seq<char>>
    decreases n,
{
    if n == 0 {
        None
    } else {
        match compose_refusal(plan, artworks, (n - 1) as nat) {
            Some(m) => Some(m),
            None => {
                let slot = plan.slots@[n - 1];
                match last_artwork(artworks, slot.slot_id@) {
                    None => Some("missing artwork bytes for slot "@ + slot.slot_id@),
                    Some(art) => {
                        let a = pixel_area(slot.placement, plan.target_dpi);
                        cover_refusal(art.width, art.height, art.rgba@.len(), a.width as nat, a.height as nat)
                    },
                }
            },
        }
    }
}

/// The white page of a plan, three bytes per pixel.
pub open spec fn white_page(plan: PlantPrepressPlan) -> Seq<u8> {
    Seq::new((plan.page_width_px * plan.page_height_px * 3) as nat, |i: int| 255u8)
}

/// The page after compositing the plan's first `n` slots over white in
/// slot order, slot `k` taking `resized[k]` as the resample of its artwork.
pub open spec fn compose_page(plan: PlantPrepressPlan, artworks: Seq<DecodedArtwork>, resized: Seq<Seq<u8>>, n: nat) -> Seq<u8>
    decreases n,
{
    if n == 0 {
        white_page(plan)
    } else {
        let page = compose_page(plan, artworks, resized, (n - 1) as nat);
        let slot = plan.slots@[n - 1];
        match last_artwork(artworks, slot.slot_id@) {
            None => page,
            Some(art) => {
                let a = pixel_area(slot.placement, plan.target_dpi);
                let fitted = cover_pixels(art.width, art.height, art.rgba@, a.width as nat, a.height as nat, resized[n - 1]);
                paint_area_spec(page, Some(fitted), a, plan.page_width_px as nat)
            },
        }
    }
}

/// Whether `resized` holds, slot by slot, a raster of the size its
/// artwork is scaled to.
pub open spec fn resamples_fit(plan: PlantPrepressPlan, artworks: Seq<DecodedArtwork>, resized: Seq<Seq<u8>>) -> bool {
    &&& resized.len() == plan.slots@.len()
    &&& forall|k: int|
        0 <= k < resized.len() ==> match last_artwork(artworks, plan.slots@[k].slot_id@) {
            Some(art) => resample_fits(
                art.width,
                art.height,
                art.rgba@,
                pixel_area(plan.slots@[k].placement, plan.target_dpi).width as nat,
                pixel_area(plan.slots@[k].placement, plan.target_dpi).height as nat,
                #[trigger] resized[k],
            ),
            None => true,
        }
}

/// Why a plan's page cannot be rendered, if it cannot: a page too large
/// to hold, or the first slot that cannot be placed.
pub open spec fn raster_refusal(plan: PlantPrepressPlan, artworks: Seq<DecodedArtwork>) -> Option<Seq<char>> {
    if !image_len_fits(plan.page_width_px as nat, plan.page_height_px as nat, 3) {
        Some("prepress page is too large"@)
    } else {
        compose_refusal(plan, artworks, plan.slots@.len())
    }
}

/// The RGB page raster of a plan: white, each slot's artwork scaled to
/// cover its placement and composited in slot order, then the cutouts
/// painted white.
pub open spec fn raster_page(plan: PlantPrepressPlan, artworks: Seq<DecodedArtwork>, resized: Seq<Seq<u8>>) -> Seq<u8> {
    mask_all(
        compose_page(plan, artworks, resized, plan.slots@.len()),
        plan.cutouts@,
        plan.target_dpi,
        plan.page_width_px as nat,
    )
}

/// Whether `page` is the plan's page, three bytes per pixel, for some
/// resample of each slot's artwork to its cover size.
pub open spec fn rendered_page(plan: PlantPrepressPlan, artworks: Seq<DecodedArtwork>, page: Seq<u8>) -> bool {
    &&& page.len() == plan.page_width_px * plan.page_height_px * 3
    &&& exists|resized: Seq<Seq<u8>>|
        #![trigger raster_page(plan, artworks, resized)]
        resamples_fit(plan, artworks, resized) && raster_page(plan, artworks, resized) == page
}

/// Once a slot is refused, every longer run of slots is refused with the
/// same message.
pub proof fn lemma_compose_refusal_stays(plan: PlantPrepressPlan, artworks: Seq<DecodedArtwork>, m: nat, n: nat)
    requires
        m <= n,
        compose_refusal(plan, artworks, m) is Some,
    ensures
        compose_refusal(plan, artworks, n) == compose_refusal(plan, artworks, m),
    decreases n - m,
{
    if m < n {
        lemma_compose_refusal_stays(plan, artworks, m, (n - 1) as nat);
    }
}

proof fn lemma_compose_page_prefix(
    plan: PlantPrepressPlan,
    artworks: Seq<DecodedArtwork>,
    r1: Seq<Seq<u8>>,
    r2: Seq<Seq<u8>>,
    n: nat,
)
    requires
        n <= r1.len(),
        n <= r2.len(),
        forall|k: int| 0 <= k < n ==> r1[k] == r2[k],
    ensures
        compose_page(plan, artworks, r1, n) == compose_page(plan, artworks, r2, n),
    decreases n,
{
    if n > 0 {
        lemma_compose_page_prefix(plan, artworks, r1, r2, (n - 1) as nat);
    }
}

/// Renders the plant-ready page: every slot's artwork (the last one given
/// for its slot id) scaled to cover its placement and blended over white by
/// its alpha, clipped to circular placements, then the cutouts painted
/// white.
pub fn rasterize_prepress_page(plan: &PlantPrepressPlan, artworks: &[DecodedArtwork]) -> (res: Result<Vec<u8>, PlantPrepressExportError>)
    ensures
        match raster_refusal(*plan, artworks@) {
            Some(m) => res matches Err(e) && e.spec_message() == m,
            None => res matches Ok(page) && rendered_page(*plan, artworks@, page@),
        },
{
    let pw = plan.page_width_px as usize;
    let ph = plan.page_height_px as usize;
    let page_len = match checked_image_len(pw, ph, 3, "prepress page") {
        Ok(n) => n,
        Err(e) => {
            proof {
                reveal_strlit("prepress page");
                reveal_strlit(" is too large");
                reveal_strlit("prepress page is too large");
                assert("prepress page"@ + " is too large"@ =~= "prepress page is too large"@);
            }
            return Err(e);
        },
    };
    let mut page: Vec<u8> = Vec::new();
    while page.len() < page_len
        invariant
            page_len == pw * ph * 3,
            page@.len() <= page_len,
            forall|k: int| 0 <= k < page@.len() ==> page@[k] == 255u8,
        decreases page_len - page@.len(),
    {
        page.push(255);
    }
    assert(page@ =~= white_page(*plan));
    let ghost mut resized: Seq<Seq<u8>> = Seq::empty();
    let mut i: usize = 0;
    while i < plan.slots.len()
        invariant
            i <= plan.slots@.len(),
            pw == plan.page_width_px,
            ph == plan.page_height_px,
            image_len_fits(pw as nat, ph as nat, 3),
            page@.len() == pw * ph * 3,
            resized.len() == i,
            compose_refusal(*plan, artworks@, i as nat) is None,
            page@ == compose_page(*plan, artworks@, resized, i as nat),
            forall|k: int|
                0 <= k < i ==> match last_artwork(artworks@, plan.slots@[k].slot_id@) {
                    Some(art) => resample_fits(
                        art.width,
                        art.height,
                        art.rgba@,
                        pixel_area(plan.slots@[k].placement, plan.target_dpi).width as nat,
                        pixel_area(plan.slots@[k].placement, plan.target_dpi).height as nat,
                        #[trigger] resized[k],
                    ),
                    None => true,
                },
        decreases plan.slots@.len() - i,
    {
        let slot = &plan.slots[i];
        let idx = match find_last_artwork(artworks, slot.slot_id.as_str()) {
            Some(k) => k,
            None => {
                let mut m = chars_of("missing artwork bytes for slot ");
                push_str(&mut m, slot.slot_id.as_str());
                proof {
                    lemma_compose_refusal_stays(*plan, artworks@, (i + 1) as nat, plan.slots@.len());
                }
                return Err(PlantPrepressExportError::new(string_from_chars(m.as_slice())));
            },
        };
        let a = pixel_area_exec(slot.placement, plan.target_dpi);
        let fitted = match resize_cover_rgba(&artworks[idx], a.width, a.height) {
            Ok(f) => f,
            Err(e) => {
                proof {
                    lemma_compose_refusal_stays(*plan, artworks@, (i + 1) as nat, plan.slots@.len());
                }
                return Err(e);
            },
        };
        let ghost art = artworks@[idx as int];
        let ghost r = choose|r: Seq<u8>|
            #![trigger cover_pixels(art.width, art.height, art.rgba@, a.width as nat, a.height as nat, r)]
            resample_fits(art.width, art.height, art.rgba@, a.width as nat, a.height as nat, r) && fitted@ == cover_pixels(
                art.width,
                art.height,
                art.rgba@,
                a.width as nat,
                a.height as nat,
                r,
            );
        let ghost before = resized;
        proof {
            resized = resized.push(r);
            lemma_compose_page_prefix(*plan, artworks@, before, resized, i as nat);
        }
        paint_area(&mut page, Some(fitted.as_slice()), a, pw, ph);
        i = i + 1;
        proof {
            assert forall|k: int| 0 <= k < i implies match last_artwork(artworks@, plan.slots@[k].slot_id@) {
                Some(art) => resample_fits(
                    art.width,
                    art.height,
                    art.rgba@,
                    pixel_area(plan.slots@[k].placement, plan.target_dpi).width as nat,
                    pixel_area(plan.slots@[k].placement, plan.target_dpi).height as nat,
                    #[trigger] resized[k],
                ),
                None => true,
            } by {
                if k < i - 1 {
                    assert(resized[k] == before[k]);
                }
            }
        }
    }
    let ghost composed = page@;
    mask_cutouts(&mut page, plan);
    assert(composed.take(composed.len() as int) =~= composed);
    assert(composed.skip(composed.len() as int) =~= Seq::<u8>::empty());
    assert(page@ =~= mask_all(composed, plan.cutouts@, plan.target_dpi, plan.page_width_px as nat));
    assert(resamples_fit(*plan, artworks@, resized));
    assert(raster_page(*plan, artworks@, resized) == page@);
    Ok(page)
}

} // verus!
