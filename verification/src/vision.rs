//! Integer decisions of the vision pipeline: clamping a crop to the frame,
//! which input sizes a model is probed with, which anti-spoofing models a
//! mode runs, and where cameras are looked for.

use crate::config::AntiSpoofMode;
use crate::error::Error;
use crate::text::{decimal, push_decimal, push_signed_decimal, signed_decimal};
use vstd::prelude::*;
use vstd::string::StringExecFns;

verus! {

/// A rectangle in pixels.
#[derive(Debug, Clone, Copy, PartialEq, Eq, Structural)]
pub struct RoiRect {
    pub x: i32,
    pub y: i32,
    pub width: i32,
    pub height: i32,
}

pub open spec fn clamp_int(v: int, lo: int, hi: int) -> int {
    if v < lo { lo } else if v > hi { hi } else { v }
}

pub open spec fn empty_frame_text() -> Seq<char> {
    "Cannot crop anti-spoof ROI from an empty frame"@
}

pub open spec fn bad_roi_text(x: i32, y: i32, width: i32, height: i32) -> Seq<char> {
    "Invalid anti-spoof ROI dimensions: x="@ + signed_decimal(x as int) + ", y="@ + signed_decimal(y as int)
        + ", width="@ + signed_decimal(width as int) + ", height="@ + signed_decimal(height as int)
}

pub open spec fn is_anti_spoof_error(e: Error, m: Seq<char>) -> bool {
    e matches Error::AntiSpoofing(x) && x@ == m
}

/// The crop `rect` (x, y, width, height) moved and cut to lie within an
/// image of the given size: its corner is clamped into the image, and its
/// size cut to what remains (at least one pixel).
pub fn normalize_roi_rect(image_w: i32, image_h: i32, rect: (i32, i32, i32, i32)) -> (r: Result<RoiRect, Error>)
    ensures
        image_w <= 0 || image_h <= 0 ==> (r matches Err(e) && is_anti_spoof_error(e, empty_frame_text())),
        image_w > 0 && image_h > 0 && (rect.2 <= 0 || rect.3 <= 0) ==> (r matches Err(e) && is_anti_spoof_error(
            e,
            bad_roi_text(rect.0, rect.1, rect.2, rect.3),
        )),
        image_w > 0 && image_h > 0 && rect.2 > 0 && rect.3 > 0 ==> (r matches Ok(roi) && {
            &&& roi.x == clamp_int(rect.0 as int, 0, image_w - 1)
            &&& roi.y == clamp_int(rect.1 as int, 0, image_h - 1)
            &&& roi.width == (if rect.2 < image_w - roi.x { rect.2 as int } else { image_w - roi.x })
            &&& roi.height == (if rect.3 < image_h - roi.y { rect.3 as int } else { image_h - roi.y })
            &&& 0 <= roi.x && 1 <= roi.width && roi.x + roi.width <= image_w
            &&& 0 <= roi.y && 1 <= roi.height && roi.y + roi.height <= image_h
        }),
{
    if image_w <= 0 || image_h <= 0 {
        return Err(Error::AntiSpoofing(String::from_str("Cannot crop anti-spoof ROI from an empty frame")));
    }
    let (x, y, width, height) = rect;
    if width <= 0 || height <= 0 {
        let mut m = String::from_str("Invalid anti-spoof ROI dimensions: x=");
        push_signed_decimal(&mut m, x as i64);
        m.append(", y=");
        push_signed_decimal(&mut m, y as i64);
        m.append(", width=");
        push_signed_decimal(&mut m, width as i64);
        m.append(", height=");
        push_signed_decimal(&mut m, height as i64);
        assert(m@ =~= bad_roi_text(x, y, width, height));
        return Err(Error::AntiSpoofing(m));
    }
    let max_x = image_w - 1;
    let max_y = image_h - 1;
    let cx = if x < 0 { 0 } else if x > max_x { max_x } else { x };
    let cy = if y < 0 { 0 } else if y > max_y { max_y } else { y };
    let room_w = image_w - cx;
    let room_h = image_h - cy;
    let w = if width < room_w { width } else { room_w };
    let h = if height < room_h { height } else { room_h };
    let w = if w < 1 { 1 } else { w };
    let h = if h < 1 { 1 } else { h };
    Ok(RoiRect { x: cx, y: cy, width: w, height: h })
}

/// The input sizes a model is tried with, in order: the configured one (when
/// positive), then 80, 40, 112, 128 and 64, each once.
pub open spec fn probe_sizes(configured: i32) -> Seq<i32> {
    let first: Seq<i32> = if configured > 0 { seq![configured] } else { seq![] };
    first + seq![80i32, 40, 112, 128, 64].filter(|s: i32| !first.contains(s))
}

/// The input sizes to probe a model with.
pub fn probe_input_sizes(configured: i32) -> (r: Vec<i32>)
    ensures
        r@ == probe_sizes(configured),
{
    let mut sizes: Vec<i32> = Vec::new();
    if configured > 0 {
        sizes.push(configured);
    }
    let ghost first = sizes@;
    let candidates: Vec<i32> = vec![80, 40, 112, 128, 64];
    let ghost cs = candidates@;
    let mut i: usize = 0;
    proof {
        reveal(Seq::filter);
        assert(cs.take(0).filter(|s: i32| !first.contains(s)) =~= Seq::<i32>::empty());
        assert(sizes@ =~= first + cs.take(0).filter(|s: i32| !first.contains(s)));
    }
    while i < candidates.len()
        invariant
            i <= candidates@.len(),
            cs == candidates@,
            cs == seq![80i32, 40, 112, 128, 64],
            first == (if configured > 0 { seq![configured] } else { Seq::<i32>::empty() }),
            sizes@ == first + cs.take(i as int).filter(|s: i32| !first.contains(s)),
        decreases candidates.len() - i,
    {
        let size = candidates[i];
        let ghost before = sizes@;
        proof {
            reveal(Seq::filter);
            assert(cs.take(i + 1).drop_last() =~= cs.take(i as int));
        }
        let seen = configured > 0 && configured == size;
        if !seen {
            sizes.push(size);
            proof {
                assert(!first.contains(size));
                assert(sizes@ =~= first + cs.take(i + 1).filter(|s: i32| !first.contains(s)));
            }
        } else {
            proof {
                assert(first[0] == size);
                assert(first.contains(size));
                assert(sizes@ =~= first + cs.take(i + 1).filter(|s: i32| !first.contains(s)));
            }
        }
        i = i + 1;
    }
    assert(cs.take(5) =~= cs);
    sizes
}

/// An anti-spoofing model.
#[derive(Debug, Clone, Copy, PartialEq, Eq, Structural)]
pub enum AntiSpoofModel {
    MiniFASNetV2,
    MiniFASNetV1SE,
}

impl AntiSpoofModel {
    pub open spec fn label_text(self) -> Seq<char> {
        match self {
            AntiSpoofModel::MiniFASNetV2 => "MiniFASNetV2"@,
            AntiSpoofModel::MiniFASNetV1SE => "MiniFASNetV1SE"@,
        }
    }

    /// The model's name.
    pub fn label(self) -> (r: &'static str)
        ensures
            r@ == self.label_text(),
    {
        match self {
            AntiSpoofModel::MiniFASNetV2 => "MiniFASNetV2",
            AntiSpoofModel::MiniFASNetV1SE => "MiniFASNetV1SE",
        }
    }
}

/// The models a mode runs, in order: one of them, or both for fusion.
pub open spec fn models_of_mode(mode: AntiSpoofMode) -> Seq<AntiSpoofModel> {
    match mode {
        AntiSpoofMode::MiniFASNetV2 => seq![AntiSpoofModel::MiniFASNetV2],
        AntiSpoofMode::MiniFASNetV1SE => seq![AntiSpoofModel::MiniFASNetV1SE],
        AntiSpoofMode::Fusion => seq![AntiSpoofModel::MiniFASNetV2, AntiSpoofModel::MiniFASNetV1SE],
    }
}

/// The anti-spoofing models that `mode` runs.
pub fn active_profiles(mode: AntiSpoofMode) -> (r: Vec<AntiSpoofModel>)
    ensures
        r@ == models_of_mode(mode),
{
    let mut v: Vec<AntiSpoofModel> = Vec::new();
    match mode {
        AntiSpoofMode::MiniFASNetV2 => v.push(AntiSpoofModel::MiniFASNetV2),
        AntiSpoofMode::MiniFASNetV1SE => v.push(AntiSpoofModel::MiniFASNetV1SE),
        AntiSpoofMode::Fusion => {
            v.push(AntiSpoofModel::MiniFASNetV2);
            v.push(AntiSpoofModel::MiniFASNetV1SE);
        },
    }
    assert(v@ =~= models_of_mode(mode));
    v
}

/// The device files where cameras are looked for: `/dev/video0` to
/// `/dev/video9`, in order.
pub fn camera_candidates() -> (r: Vec<String>)
    ensures
        r@.len() == 10,
        forall|i: int| 0 <= i < 10 ==> #[trigger] r@[i]@ == "/dev/video"@ + decimal(i as nat),
{
    let mut out: Vec<String> = Vec::new();
    let mut i: u64 = 0;
    while i < 10
        invariant
            i <= 10,
            out@.len() == i,
            forall|k: int| 0 <= k < i ==> #[trigger] out@[k]@ == "/dev/video"@ + decimal(k as nat),
        decreases 10 - i,
    {
        let mut s = String::from_str("/dev/video");
        push_decimal(&mut s, i);
        out.push(s);
        i = i + 1;
    }
    out
}

} // verus!
