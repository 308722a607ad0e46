//! Crop, resize and placement arithmetic, and the specs that describe them.
use vstd::prelude::*;
use crate::formats::AnchorPosition;
use crate::text::{
    chars_eq_str, chars_of, copy_range, find_char, parse_unsigned, parse_unsigned_chars,
    position_of_char, split_chars, split_on, string_of, trim, trim_chars, decimal,
    lemma_parse_decimal, lemma_split_concat, lemma_split_without_sep,
};

verus! {

/// A manual crop request: an origin and an optional size, or an aspect ratio
/// to cut centred out of the image.
pub struct CropOptions {
    pub x: u32,
    pub y: u32,
    pub width: Option<u32>,
    pub height: Option<u32>,
    pub aspect_ratio: Option<(u32, u32)>,
}

impl Default for CropOptions {
    fn default() -> (c: Self)
        ensures
            c.x == 0 && c.y == 0 && c.width is None && c.height is None && c.aspect_ratio is None,
    {
        CropOptions { x: 0, y: 0, width: None, height: None, aspect_ratio: None }
    }
}

/// A crop window: origin and size in pixels.
#[derive(Debug, Clone, Copy, PartialEq, Eq, Structural)]
pub struct CropBox {
    pub x: u32,
    pub y: u32,
    pub width: u32,
    pub height: u32,
}

/// `u32::MAX` as a mathematical integer.
pub open spec fn u32_max() -> nat {
    0xffff_ffff
}

/// A `u32` read from `s` after trimming, as `s.trim().parse::<u32>()` reads it.
pub open spec fn trimmed_u32(s: Seq<char>) -> Option<nat> {
    parse_unsigned(trim(s), u32_max())
}

/// The crop that a spec string `"x,y,width,height"` describes.
pub open spec fn crop_spec_value(spec: Seq<char>) -> Option<(nat, nat, nat, nat)> {
    let parts = split_on(spec, ',');
    if parts.len() == 4 {
        match (
            trimmed_u32(parts[0]),
            trimmed_u32(parts[1]),
            trimmed_u32(parts[2]),
            trimmed_u32(parts[3]),
        ) {
            (Some(x), Some(y), Some(w), Some(h)) => Some((x, y, w, h)),
            _ => None,
        }
    } else {
        None
    }
}

fn parse_trimmed_u32(s: &[char]) -> (r: Option<u32>)
    ensures
        r matches Some(v) ==> trimmed_u32(s@) == Some(v as nat),
        r is None ==> trimmed_u32(s@) is None,
{
    let t = trim_chars(s);
    match parse_unsigned_chars(t.as_slice(), 0xffff_ffff) {
        Some(v) => Some(v as u32),
        None => None,
    }
}

/// Parses a manual crop spec such as `"10,20,400,300"` (origin, then size).
pub fn parse_crop_spec(spec: &str) -> (r: Option<CropOptions>)
    ensures
        r is Some <==> crop_spec_value(spec@) is Some,
        r matches Some(c) ==> crop_spec_value(spec@) == Some(
            (c.x as nat, c.y as nat, c.width->0 as nat, c.height->0 as nat),
        ) && c.width is Some && c.height is Some && c.aspect_ratio is None,
{
    let chars = chars_of(spec);
    let parts = split_chars(chars.as_slice(), ',');
    if parts.len() == 4 {
        let x = parse_trimmed_u32(parts[0].as_slice());
        let y = parse_trimmed_u32(parts[1].as_slice());
        let w = parse_trimmed_u32(parts[2].as_slice());
        let h = parse_trimmed_u32(parts[3].as_slice());
        match (x, y, w, h) {
            (Some(x), Some(y), Some(width), Some(height)) => {
                return Some(
                    CropOptions {
                        x,
                        y,
                        width: Some(width),
                        height: Some(height),
                        aspect_ratio: None,
                    },
                );
            },
            _ => {},
        }
    }
    None
}

/// The ratio that a spec string `"w:h"` describes; both terms must be positive.
pub open spec fn aspect_ratio_value(s: Seq<char>) -> Option<(nat, nat)> {
    let parts = split_on(s, ':');
    if parts.len() == 2 {
        match (trimmed_u32(parts[0]), trimmed_u32(parts[1])) {
            (Some(w), Some(h)) => if w > 0 && h > 0 {
                Some((w, h))
            } else {
                None
            },
            _ => None,
        }
    } else {
        None
    }
}

/// Parses an aspect ratio such as `"16:9"` or `"1:1"`.
pub fn parse_aspect_ratio(s: &str) -> (r: Option<(u32, u32)>)
    ensures
        r is Some <==> aspect_ratio_value(s@) is Some,
        r matches Some(p) ==> aspect_ratio_value(s@) == Some((p.0 as nat, p.1 as nat)),
{
    let chars = chars_of(s);
    let parts = split_chars(chars.as_slice(), ':');
    if parts.len() == 2 {
        let w = parse_trimmed_u32(parts[0].as_slice());
        let h = parse_trimmed_u32(parts[1].as_slice());
        match (w, h) {
            (Some(w), Some(h)) => {
                if w > 0 && h > 0 {
                    return Some((w, h));
                }
            },
            _ => {},
        }
    }
    None
}

/// The window a manual crop cuts out of a `img_w` x `img_h` image: the
/// requested size, shrunk to what lies right of and below the origin; `None`
/// when the image or that window is empty, and the image is then kept whole.
pub open spec fn manual_crop_window(img_w: u32, img_h: u32, opts: CropOptions) -> Option<CropBox> {
    let avail_w = sat_sub(img_w, opts.x);
    let avail_h = sat_sub(img_h, opts.y);
    let want_w = match opts.width { Some(w) => w, None => img_w };
    let want_h = match opts.height { Some(h) => h, None => img_h };
    let w = if want_w <= avail_w { want_w } else { avail_w };
    let h = if want_h <= avail_h { want_h } else { avail_h };
    if img_w == 0 || img_h == 0 || w == 0 || h == 0 {
        None
    } else {
        Some(CropBox { x: opts.x, y: opts.y, width: w, height: h })
    }
}

fn min_u32(a: u32, b: u32) -> (r: u32)
    ensures
        r == (if a <= b { a } else { b }),
{
    if a <= b {
        a
    } else {
        b
    }
}

/// The window a manual crop (no aspect ratio) cuts out of a `img_w` x `img_h` image.
pub fn manual_crop_rect(img_w: u32, img_h: u32, opts: &CropOptions) -> (r: Option<CropBox>)
    ensures
        r == manual_crop_window(img_w, img_h, *opts),
        r matches Some(b) ==> b.width > 0 && b.height > 0 && b.x + b.width <= img_w && b.y
            + b.height <= img_h,
{
    if img_w == 0 || img_h == 0 {
        return None;
    }
    let want_w = match opts.width {
        Some(w) => w,
        None => img_w,
    };
    let want_h = match opts.height {
        Some(h) => h,
        None => img_h,
    };
    let w = min_u32(want_w, img_w.saturating_sub(opts.x));
    let h = min_u32(want_h, img_h.saturating_sub(opts.y));
    if w == 0 || h == 0 {
        return None;
    }
    Some(CropBox { x: opts.x, y: opts.y, width: w, height: h })
}

/// `a - b`, or 0 when `b` exceeds `a`.
pub open spec fn sat_sub(a: u32, b: u32) -> u32 {
    if a >= b { (a - b) as u32 } else { 0 }
}

/// The top-left corner at which a `ww` x `wh` overlay sits on a `bw` x `bh`
/// base: the anchor's corner or centre, kept `padding` pixels from the edges
/// (less when the overlay leaves less room).
pub open spec fn anchor_offset(bw: u32, bh: u32, ww: u32, wh: u32, anchor: AnchorPosition, padding: u32) -> (u32, u32) {
    let px = if padding <= sat_sub(bw, ww) / 2 { padding } else { sat_sub(bw, ww) / 2 };
    let py = if padding <= sat_sub(bh, wh) / 2 { padding } else { sat_sub(bh, wh) / 2 };
    let left = px;
    let hcenter = sat_sub(bw, ww) / 2;
    let right = sat_sub(sat_sub(bw, ww), px);
    let top = py;
    let vcenter = sat_sub(bh, wh) / 2;
    let bottom = sat_sub(sat_sub(bh, wh), py);
    match anchor {
        AnchorPosition::TopLeft => (left, top),
        AnchorPosition::TopCenter => (hcenter, top),
        AnchorPosition::TopRight => (right, top),
        AnchorPosition::CenterLeft => (left, vcenter),
        AnchorPosition::Center => (hcenter, vcenter),
        AnchorPosition::CenterRight => (right, vcenter),
        AnchorPosition::BottomLeft => (left, bottom),
        AnchorPosition::BottomCenter => (hcenter, bottom),
        AnchorPosition::BottomRight => (right, bottom),
    }
}

/// The top-left corner for a `ww` x `wh` overlay on a `bw` x `bh` base.
pub fn compute_anchor_offset(
    bw: u32,
    bh: u32,
    ww: u32,
    wh: u32,
    anchor: AnchorPosition,
    padding: u32,
) -> (r: (u32, u32))
    ensures
        r == anchor_offset(bw, bh, ww, wh, anchor, padding),
        ww <= bw ==> r.0 + ww <= bw,
        wh <= bh ==> r.1 + wh <= bh,
{
    let padding_x = min_u32(padding, bw.saturating_sub(ww) / 2);
    let padding_y = min_u32(padding, bh.saturating_sub(wh) / 2);
    match anchor {
        AnchorPosition::TopLeft => (padding_x, padding_y),
        AnchorPosition::TopCenter => (bw.saturating_sub(ww) / 2, padding_y),
        AnchorPosition::TopRight => (bw.saturating_sub(ww).saturating_sub(padding_x), padding_y),
        AnchorPosition::CenterLeft => (padding_x, bh.saturating_sub(wh) / 2),
        AnchorPosition::Center => (bw.saturating_sub(ww) / 2, bh.saturating_sub(wh) / 2),
        AnchorPosition::CenterRight => (
            bw.saturating_sub(ww).saturating_sub(padding_x),
            bh.saturating_sub(wh) / 2,
        ),
        AnchorPosition::BottomLeft => (padding_x, bh.saturating_sub(wh).saturating_sub(padding_y)),
        AnchorPosition::BottomCenter => (
            bw.saturating_sub(ww) / 2,
            bh.saturating_sub(wh).saturating_sub(padding_y),
        ),
        AnchorPosition::BottomRight => (
            bw.saturating_sub(ww).saturating_sub(padding_x),
            bh.saturating_sub(wh).saturating_sub(padding_y),
        ),
    }
}

/// How a resize spec reads: a percentage (its numeral is left to the caller),
/// a width and/or height, or nothing usable.
pub enum ResizeForm {
    Percent(String),
    Dimensions(Option<u32>, Option<u32>),
    Invalid,
}

/// A resize dimension: `-` or nothing leaves it free, else a `u32` numeral
/// (read without trimming).
pub open spec fn dimension_value(s: Seq<char>) -> Option<Option<nat>> {
    if s == "-"@ || s.len() == 0 {
        Some(None)
    } else {
        match parse_unsigned(s, u32_max()) {
            Some(v) => Some(Some(v)),
            None => None,
        }
    }
}

/// The spec-level reading of a resize spec: `Some(Ok(p))` for a percentage with
/// numeral `p`, `Some(Err((w, h)))` for dimensions, `None` when invalid.
pub open spec fn resize_form_value(spec: Seq<char>) -> Option<Result<Seq<char>, (Option<nat>, Option<nat>)>> {
    let t = trim(spec);
    if t.len() > 0 && t.last() == '%' {
        Some(Ok(t.drop_last()))
    } else {
        match find_char(t, 'x') {
            Some(i) => match (dimension_value(t.take(i)), dimension_value(t.skip(i + 1))) {
                (Some(w), Some(h)) => if w is Some || h is Some {
                    Some(Err((w, h)))
                } else {
                    None
                },
                _ => None,
            },
            None => None,
        }
    }
}

fn parse_dimension(s: &[char]) -> (r: Option<Option<u32>>)
    ensures
        r matches Some(d) ==> dimension_value(s@) == Some(
            match d {
                Some(v) => Some(v as nat),
                None => None::<nat>,
            },
        ),
        r is None ==> dimension_value(s@) is None,
{
    if s.len() == 0 || chars_eq_str(s, "-") {
        return Some(None);
    }
    match parse_unsigned_chars(s, 0xffff_ffff) {
        Some(v) => Some(Some(v as u32)),
        None => None,
    }
}

/// Reads a resize spec such as `"800x600"`, `"50%"`, `"800x-"` or `"-x600"`.
pub fn parse_resize_form(spec: &str) -> (r: ResizeForm)
    ensures
        match r {
            ResizeForm::Percent(p) => resize_form_value(spec@) == Some(
                Ok::<Seq<char>, (Option<nat>, Option<nat>)>(p@),
            ),
            ResizeForm::Dimensions(w, h) => resize_form_value(spec@) == Some(
                Err::<Seq<char>, (Option<nat>, Option<nat>)>(
                    (
                        match w {
                            Some(v) => Some(v as nat),
                            None => None::<nat>,
                        },
                        match h {
                            Some(v) => Some(v as nat),
                            None => None::<nat>,
                        },
                    ),
                ),
            ),
            ResizeForm::Invalid => resize_form_value(spec@) is None,
        },
{
    let chars = chars_of(spec);
    let t = trim_chars(chars.as_slice());
    let n = t.len();
    if n > 0 && t[n - 1] == '%' {
        let body = copy_range(t.as_slice(), 0, n - 1);
        assert(body@ =~= t@.drop_last());
        return ResizeForm::Percent(string_of(body.as_slice()));
    }
    match position_of_char(t.as_slice(), 'x') {
        Some(i) => {
            let ws = copy_range(t.as_slice(), 0, i);
            let hs = copy_range(t.as_slice(), i + 1, n);
            assert(ws@ =~= t@.take(i as int));
            assert(hs@ =~= t@.skip(i + 1));
            match (parse_dimension(ws.as_slice()), parse_dimension(hs.as_slice())) {
                (Some(w), Some(h)) => {
                    if w.is_some() || h.is_some() {
                        ResizeForm::Dimensions(w, h)
                    } else {
                        ResizeForm::Invalid
                    }
                },
                _ => ResizeForm::Invalid,
            }
        },
        None => ResizeForm::Invalid,
    }
}

/// What a smart-crop spec asks for: an aspect ratio, an exact size, or the
/// default behaviour.
#[derive(Debug, Clone, Copy, PartialEq, Eq, Structural)]
pub enum SmartCropTarget {
    AspectRatio(u32, u32),
    Size(u32, u32),
    Unspecified,
}

/// A smart-crop spec: an aspect ratio `"w:h"` if it reads as one, else
/// `"WxH"` with two `u32` numerals (read without trimming).
pub open spec fn smart_crop_target_value(s: Seq<char>) -> SmartCropTarget {
    match aspect_ratio_value(s) {
        Some((w, h)) => SmartCropTarget::AspectRatio(w as u32, h as u32),
        None => match find_char(s, 'x') {
            Some(i) => match (
                parse_unsigned(s.take(i), u32_max()),
                parse_unsigned(s.skip(i + 1), u32_max()),
            ) {
                (Some(w), Some(h)) => SmartCropTarget::Size(w as u32, h as u32),
                _ => SmartCropTarget::Unspecified,
            },
            None => SmartCropTarget::Unspecified,
        },
    }
}

/// Reads a smart-crop spec such as `"16:9"` or `"800x600"`.
pub fn parse_smart_crop_target(s: &str) -> (r: SmartCropTarget)
    ensures
        r == smart_crop_target_value(s@),
{
    if let Some((w, h)) = parse_aspect_ratio(s) {
        return SmartCropTarget::AspectRatio(w, h);
    }
    let chars = chars_of(s);
    match position_of_char(chars.as_slice(), 'x') {
        Some(i) => {
            let ws = copy_range(chars.as_slice(), 0, i);
            let hs = copy_range(chars.as_slice(), i + 1, chars.len());
            assert(ws@ =~= s@.take(i as int));
            assert(hs@ =~= s@.skip(i + 1));
            match (
                parse_unsigned_chars(ws.as_slice(), 0xffff_ffff),
                parse_unsigned_chars(hs.as_slice(), 0xffff_ffff),
            ) {
                (Some(w), Some(h)) => SmartCropTarget::Size(w as u32, h as u32),
                _ => SmartCropTarget::Unspecified,
            }
        },
        None => SmartCropTarget::Unspecified,
    }
}

/// The region a recorded freeform crop takes from an `img_w` x `img_h` image:
/// none when its corner lies off the image (the image is kept whole), else
/// the box from (`x`, `y`) cut back to the image and at least one pixel wide
/// and high.
pub open spec fn recorded_crop_region(img_w: u32, img_h: u32, x: u32, y: u32, w: u32, h: u32) -> Option<
    (u32, u32, u32, u32),
> {
    if x >= img_w || y >= img_h {
        None
    } else {
        let cw = if w <= img_w - x { w } else { (img_w - x) as u32 };
        let ch = if h <= img_h - y { h } else { (img_h - y) as u32 };
        Some((x, y, if cw >= 1 { cw } else { 1 }, if ch >= 1 { ch } else { 1 }))
    }
}

/// Clamps a recorded freeform crop to the image it is replayed on.
pub fn clamp_recorded_crop(img_w: u32, img_h: u32, x: u32, y: u32, w: u32, h: u32) -> (r: Option<(u32, u32, u32, u32)>)
    ensures
        r == recorded_crop_region(img_w, img_h, x, y, w, h),
        r matches Some((cx, cy, cw, ch)) ==> 1 <= cw && 1 <= ch && cx + cw <= img_w && cy + ch <= img_h,
{
    if x >= img_w || y >= img_h {
        return None;
    }
    let cw = if w <= img_w - x { w } else { img_w - x };
    let ch = if h <= img_h - y { h } else { img_h - y };
    Some((x, y, if cw >= 1 { cw } else { 1 }, if ch >= 1 { ch } else { 1 }))
}

/// A ratio written `w:h` reads back as width `w` then height `h`, in that
/// order, for every pair of positive `u32` terms.
pub proof fn lemma_aspect_ratio_reads_back(w: nat, h: nat)
    requires
        0 < w <= u32_max(),
        0 < h <= u32_max(),
    ensures
        aspect_ratio_value(decimal(w) + seq![':'] + decimal(h)) == Some((w, h)),
{
    let dw = decimal(w);
    let dh = decimal(h);
    lemma_parse_decimal(w, u32_max());
    lemma_parse_decimal(h, u32_max());
    lemma_split_without_sep(dw, ':');
    lemma_split_without_sep(dh, ':');
    lemma_split_concat(dw, dh, ':');
    let parts = split_on(dw + seq![':'] + dh, ':');
    assert(parts =~= seq![dw, dh]);
    assert(parts[0] == dw);
    assert(parts[1] == dh);
}

/// A manual crop whose origin lies on a non-empty image cuts out the
/// requested size (the whole image's when none is given), shrunk to what lies
/// right of and below the origin: width `min(want_w, img_w - x)` and height
/// `min(want_h, img_h - y)`. It is `None`, the image kept whole, only when one
/// of these is 0; a window it gives either has the requested size or reaches
/// the image's edge.
pub proof fn lemma_manual_crop_shrinks_to_image(img_w: u32, img_h: u32, opts: CropOptions)
    requires
        0 < img_w,
        0 < img_h,
        opts.x < img_w,
        opts.y < img_h,
    ensures
        ({
            let want_w: int = match opts.width {
                Some(v) => v as int,
                None => img_w as int,
            };
            let want_h: int = match opts.height {
                Some(v) => v as int,
                None => img_h as int,
            };
            let mw: int = if want_w <= img_w - opts.x { want_w } else { img_w - opts.x };
            let mh: int = if want_h <= img_h - opts.y { want_h } else { img_h - opts.y };
            &&& (mw > 0 && mh > 0) ==> manual_crop_window(img_w, img_h, opts) == Some(
                CropBox { x: opts.x, y: opts.y, width: mw as u32, height: mh as u32 },
            )
            &&& (mw == 0 || mh == 0) ==> manual_crop_window(img_w, img_h, opts) is None
            &&& manual_crop_window(img_w, img_h, opts) matches Some(b) ==> (b.width == want_w || b.x + b.width
                == img_w) && (b.height == want_h || b.y + b.height == img_h)
        }),
{
}

/// Where an overlay that fits the base sits for each anchor: a left anchor
/// keeps its left edge `pad_x = min(padding, (bw - ww) / 2)` pixels from the
/// base's left edge, a right anchor keeps its right edge `pad_x` pixels from
/// the base's right edge, a centred one leaves equal room (to a pixel) on
/// both sides; likewise vertically with `pad_y`.
pub proof fn lemma_anchor_placement(bw: u32, bh: u32, ww: u32, wh: u32, anchor: AnchorPosition, padding: u32)
    requires
        ww <= bw,
        wh <= bh,
    ensures
        ({
            let (x, y) = anchor_offset(bw, bh, ww, wh, anchor, padding);
            let room_x: int = bw - ww;
            let room_y: int = bh - wh;
            let pad_x: int = if padding <= room_x / 2 { padding as int } else { room_x / 2 };
            let pad_y: int = if padding <= room_y / 2 { padding as int } else { room_y / 2 };
            let left = anchor == AnchorPosition::TopLeft || anchor == AnchorPosition::CenterLeft || anchor
                == AnchorPosition::BottomLeft;
            let right = anchor == AnchorPosition::TopRight || anchor == AnchorPosition::CenterRight || anchor
                == AnchorPosition::BottomRight;
            let top = anchor == AnchorPosition::TopLeft || anchor == AnchorPosition::TopCenter || anchor
                == AnchorPosition::TopRight;
            let bottom = anchor == AnchorPosition::BottomLeft || anchor == AnchorPosition::BottomCenter
                || anchor == AnchorPosition::BottomRight;
            &&& left ==> x == pad_x
            &&& right ==> x + ww + pad_x == bw
            &&& !left && !right ==> x == bw - (x + ww) || x + 1 == bw - (x + ww)
            &&& top ==> y == pad_y
            &&& bottom ==> y + wh + pad_y == bh
            &&& !top && !bottom ==> y == bh - (y + wh) || y + 1 == bh - (y + wh)
        }),
{
}

} // verus!
