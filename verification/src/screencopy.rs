use crate::geometry::{Point, Rect, Size, fits_i32};
use vstd::prelude::*;

verus! {

/// The version of the `zwlr_screencopy_manager_v1` global.
pub const MANAGER_VERSION: u32 = 3;

/// The `zwlr_screencopy_manager_v1` global; it is advertised at
/// `MANAGER_VERSION`, and the requests it receives are answered with
/// `capture_region`, `buffer_params` and `sends_buffer_done`.
#[derive(Debug, Clone, Copy)]
pub struct ScreencopyManagerState;

/// The region of an output that a capture request copies. `requested` is
/// `None` for a capture of the whole output, or the requested region already
/// turned into the output's framebuffer coordinates; such a region is
/// clamped to the output, and is empty when it lies outside it.
pub open spec fn spec_capture_region(requested: Option<Rect>, output_size: Size) -> Rect {
    let whole = Rect { loc: Point { x: 0, y: 0 }, size: output_size };
    match requested {
        None => whole,
        Some(r) => match r.spec_intersection(whole) {
            Some(i) => i,
            None => Rect { loc: Point { x: 0, y: 0 }, size: Size { w: 0, h: 0 } },
        },
    }
}

/// The region of an output that a capture request copies.
pub fn capture_region(requested: Option<Rect>, output_size: Size) -> (r: Rect)
    ensures
        r == spec_capture_region(requested, output_size),
{
    let whole = Rect { loc: Point { x: 0, y: 0 }, size: output_size };
    match requested {
        None => whole,
        Some(region) => match region.intersection(&whole) {
            Some(i) => i,
            None => Rect { loc: Point { x: 0, y: 0 }, size: Size { w: 0, h: 0 } },
        },
    }
}

/// How an output's content is turned relative to its framebuffer.
#[derive(Debug, Clone, Copy, PartialEq, Eq, Structural)]
pub enum OutputTransform {
    Normal,
    _90,
    _180,
    _270,
    Flipped,
    Flipped90,
    Flipped180,
    Flipped270,
}

/// The location of `rect` after the transformation, inside an area of size
/// `area`, in unbounded integers: each variant mirrors or swaps the axes.
pub open spec fn transformed_loc(t: OutputTransform, rect: Rect, area: Size) -> (int, int) {
    let x = rect.loc.x as int;
    let y = rect.loc.y as int;
    let w = rect.size.w as int;
    let h = rect.size.h as int;
    match t {
        OutputTransform::Normal => (x, y),
        OutputTransform::_90 => (area.h - y - h, x),
        OutputTransform::_180 => (area.w - x - w, area.h - y - h),
        OutputTransform::_270 => (y, area.w - x - w),
        OutputTransform::Flipped => (area.w - x - w, y),
        OutputTransform::Flipped90 => (area.h - y - h, area.w - x - w),
        OutputTransform::Flipped180 => (x, area.h - y - h),
        OutputTransform::Flipped270 => (y, x),
    }
}

/// Whether the transformation turns the content by a quarter, which swaps
/// width and height.
pub open spec fn swaps_axes(t: OutputTransform) -> bool {
    t == OutputTransform::_90 || t == OutputTransform::_270 || t == OutputTransform::Flipped90
        || t == OutputTransform::Flipped270
}

/// Whether the differences that the transformation computes stay within `i32`.
pub open spec fn transform_fits(t: OutputTransform, rect: Rect, area: Size) -> bool {
    &&& (t == OutputTransform::_180 || t == OutputTransform::_270 || t == OutputTransform::Flipped
        || t == OutputTransform::Flipped90) ==> fits_i32(area.w - rect.loc.x)
    &&& (t == OutputTransform::_90 || t == OutputTransform::_180 || t == OutputTransform::Flipped90
        || t == OutputTransform::Flipped180) ==> fits_i32(area.h - rect.loc.y)
    &&& fits_i32(transformed_loc(t, rect, area).0)
    &&& fits_i32(transformed_loc(t, rect, area).1)
}

/// The rectangle `rect` of an area of size `area` after the transformation:
/// its location as `transformed_loc` gives it, its size with width and
/// height swapped for a quarter turn.
pub open spec fn transformed_rect(t: OutputTransform, rect: Rect, area: Size) -> Rect {
    Rect {
        loc: Point {
            x: transformed_loc(t, rect, area).0 as i32,
            y: transformed_loc(t, rect, area).1 as i32,
        },
        size: if swaps_axes(t) {
            Size { w: rect.size.h, h: rect.size.w }
        } else {
            rect.size
        },
    }
}

/// Transforms a rectangle inside an area of size `area`, as smithay's
/// `Transform::transform_rect_in` does.
pub fn transform_rect_in(t: OutputTransform, rect: Rect, area: Size) -> (r: Rect)
    requires
        transform_fits(t, rect, area),
    ensures
        r == transformed_rect(t, rect, area),
{
    let x = rect.loc.x;
    let y = rect.loc.y;
    let w = rect.size.w;
    let h = rect.size.h;
    let size = match t {
        OutputTransform::_90 | OutputTransform::_270 | OutputTransform::Flipped90 | OutputTransform::Flipped270 => Size {
            w: h,
            h: w,
        },
        _ => rect.size,
    };
    let loc = match t {
        OutputTransform::Normal => Point { x, y },
        OutputTransform::_90 => Point { x: area.h - y - h, y: x },
        OutputTransform::_180 => Point { x: area.w - x - w, y: area.h - y - h },
        OutputTransform::_270 => Point { x: y, y: area.w - x - w },
        OutputTransform::Flipped => Point { x: area.w - x - w, y },
        OutputTransform::Flipped90 => Point { x: area.h - y - h, y: area.w - x - w },
        OutputTransform::Flipped180 => Point { x, y: area.h - y - h },
        OutputTransform::Flipped270 => Point { x: y, y: x },
    };
    Rect { loc, size }
}

/// A rectangle that lies inside the area stays inside it after the
/// transformation, where the area's width and height are swapped for a
/// quarter turn.
pub proof fn lemma_transform_stays_inside(t: OutputTransform, rect: Rect, area: Size)
    requires
        0 <= rect.loc.x,
        0 <= rect.loc.y,
        0 <= rect.size.w,
        0 <= rect.size.h,
        rect.loc.x + rect.size.w <= area.w,
        rect.loc.y + rect.size.h <= area.h,
    ensures
        ({
            let l = transformed_loc(t, rect, area);
            let (aw, ah) = if swaps_axes(t) { (area.h as int, area.w as int) } else { (area.w as int, area.h as int) };
            let (w, h) = if swaps_axes(t) { (rect.size.h as int, rect.size.w as int) } else { (rect.size.w as int, rect.size.h as int) };
            &&& 0 <= l.0
            &&& 0 <= l.1
            &&& l.0 + w <= aw
            &&& l.1 + h <= ah
        }),
{
}

/// The region of an output that a capture request copies, given the region
/// the client asked for in the output's coordinates (`None` for the whole
/// output): the request is turned into framebuffer coordinates with the
/// output's transformation and then clamped to the output's mode size.
pub fn requested_capture_region(region: Option<Rect>, transform: OutputTransform, mode_size: Size) -> (r: Rect)
    requires
        region matches Some(q) ==> transform_fits(transform, q, mode_size),
    ensures
        r == spec_capture_region(
            match region {
                Some(q) => Some(transformed_rect(transform, q, mode_size)),
                None => None,
            },
            mode_size,
        ),
{
    let rotated = match region {
        Some(q) => Some(transform_rect_in(transform, q, mode_size)),
        None => None,
    };
    capture_region(rotated, mode_size)
}

/// The shared-memory buffer a client is asked to provide for a region:
/// width, height and stride in bytes (four bytes per ARGB8888 pixel).
#[derive(Debug, Clone, Copy, PartialEq, Eq, Structural)]
pub struct BufferParams {
    pub width: u32,
    pub height: u32,
    pub stride: u32,
}

/// The buffer parameters sent for a capture of `region`.
pub fn buffer_params(region: Rect) -> (p: BufferParams)
    requires
        (region.size.w as u32) * 4 <= u32::MAX,
    ensures
        p.width == region.size.w as u32,
        p.height == region.size.h as u32,
        p.stride == (region.size.w as u32) * 4,
{
    let width = region.size.w as u32;
    BufferParams { width, height: region.size.h as u32, stride: width * 4 }
}

/// Whether the client is told that all buffer types were listed: only
/// clients bound at version 3 or later understand that event.
pub fn sends_buffer_done(version: u32) -> (b: bool)
    ensures
        b == (version >= 3),
{
    version >= 3
}

/// The damage events sent for a copy: one per damaged rectangle, as
/// `(x, y, width, height)`, when the client asked for damage, else none.
pub fn damage_events(send_damage: bool, damage: &Vec<Rect>) -> (r: Vec<(u32, u32, u32, u32)>)
    ensures
        !send_damage ==> r@.len() == 0,
        send_damage ==> r@.len() == damage@.len(),
        send_damage ==> forall|i: int| 0 <= i < damage@.len() ==> #[trigger] r@[i] == (
            damage@[i].loc.x as u32,
            damage@[i].loc.y as u32,
            damage@[i].size.w as u32,
            damage@[i].size.h as u32,
        ),
{
    let mut r: Vec<(u32, u32, u32, u32)> = Vec::new();
    if !send_damage {
        return r;
    }
    let mut i: usize = 0;
    while i < damage.len()
        invariant
            i <= damage@.len(),
            r@.len() == i,
            forall|k: int| 0 <= k < i ==> #[trigger] r@[k] == (
                damage@[k].loc.x as u32,
                damage@[k].loc.y as u32,
                damage@[k].size.w as u32,
                damage@[k].size.h as u32,
            ),
        decreases damage@.len() - i,
    {
        let d = damage[i];
        r.push((d.loc.x as u32, d.loc.y as u32, d.size.w as u32, d.size.h as u32));
        i = i + 1;
    }
    r
}

/// The presentation time of a finished copy as the `ready` event carries
/// it: the seconds split into their high and low 32 bits.
pub fn ready_timestamp(secs: u64) -> (r: (u32, u32))
    ensures
        r.0 == secs / 0x1_0000_0000,
        r.1 == secs % 0x1_0000_0000,
{
    let hi = (secs >> 32u64) as u32;
    let lo = secs as u32;
    assert((secs >> 32u64) as u32 == secs / 0x1_0000_0000) by (bit_vector);
    assert(secs as u32 == secs % 0x1_0000_0000) by (bit_vector);
    (hi, lo)
}

/// The region a capture copies is exactly the part of the requested
/// rectangle that lies on the output: it starts at the later of the two
/// left (top) edges and ends at the earlier of the two right (bottom) edges;
/// a request that does not reach onto the output copies an empty region at
/// the origin, and no request copies the whole output. (The request's right
/// and bottom edges are taken to fit in `i32`, where no saturation comes in.)
pub proof fn lemma_capture_is_intersection(requested: Option<Rect>, output_size: Size)
    requires
        output_size.w >= 0,
        output_size.h >= 0,
        requested matches Some(q) ==> i32::MIN <= q.loc.x + q.size.w <= i32::MAX && i32::MIN <= q.loc.y
            + q.size.h <= i32::MAX,
    ensures
        ({
            let r = spec_capture_region(requested, output_size);
            match requested {
                None => r == Rect { loc: Point { x: 0, y: 0 }, size: output_size },
                Some(q) => {
                    let left = if q.loc.x >= 0 { q.loc.x as int } else { 0 };
                    let top = if q.loc.y >= 0 { q.loc.y as int } else { 0 };
                    let right = if q.loc.x + q.size.w <= output_size.w { q.loc.x + q.size.w } else { output_size.w as int };
                    let bottom = if q.loc.y + q.size.h <= output_size.h { q.loc.y + q.size.h } else { output_size.h as int };
                    if q.loc.x < output_size.w && 0 < q.loc.x + q.size.w && q.loc.y < output_size.h && 0 < q.loc.y
                        + q.size.h {
                        &&& r.loc.x == left
                        &&& r.loc.y == top
                        &&& r.loc.x + r.size.w == right
                        &&& r.loc.y + r.size.h == bottom
                    } else {
                        r == Rect { loc: Point { x: 0, y: 0 }, size: Size { w: 0, h: 0 } }
                    }
                },
            }
        }),
{
}

/// The two halves of the timestamp give back the seconds.
pub proof fn lemma_timestamp_roundtrip(secs: u64, hi: u32, lo: u32)
    requires
        hi == secs / 0x1_0000_0000,
        lo == secs % 0x1_0000_0000,
    ensures
        hi * 0x1_0000_0000 + lo == secs,
{
}

/// The region a capture copies lies inside the output (for an output of
/// non-negative size): it starts inside it and does not reach past its
/// right or bottom edge.
pub proof fn lemma_capture_within_output(requested: Option<Rect>, output_size: Size)
    requires
        output_size.w >= 0,
        output_size.h >= 0,
    ensures
        ({
            let r = spec_capture_region(requested, output_size);
            &&& 0 <= r.loc.x
            &&& 0 <= r.loc.y
            &&& r.loc.x + r.size.w <= output_size.w
            &&& r.loc.y + r.size.h <= output_size.h
        }),
{
}

} // verus!
