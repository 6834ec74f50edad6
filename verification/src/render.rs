use crate::geometry::{Point, Size};
use vstd::prelude::*;

verus! {

/// Gap between window previews and around them, in pixels.
pub const PREVIEW_PADDING: i32 = 10;

/// The most previews put next to each other in a row.
pub const MAX_PREVIEWS_PER_ROW: usize = 4;

/// The number of previews in a row when `count` windows are shown.
pub fn previews_per_row(count: usize) -> (r: usize)
    ensures
        r == if count <= 4 { count } else { 4 },
{
    if count <= MAX_PREVIEWS_PER_ROW {
        count
    } else {
        MAX_PREVIEWS_PER_ROW
    }
}

/// The number of rows that `count` previews need with `per_row` in a row
/// (the quotient rounded up).
pub fn preview_rows(count: usize, per_row: usize) -> (r: usize)
    requires
        per_row > 0,
    ensures
        r * per_row >= count,
        (r as int - 1) * per_row < count,
{
    let q = count / per_row;
    let rem = count % per_row;
    proof {
        assert(q * per_row + rem == count && 0 <= rem < per_row) by (nonlinear_arith)
            requires
                q == count / per_row,
                rem == count % per_row,
                per_row > 0,
        ;
        assert((q + 1) * per_row == q * per_row + per_row) by (nonlinear_arith);
        assert((q - 1) * per_row == q * per_row - per_row) by (nonlinear_arith);
    }
    if rem != 0 {
        assert(q + 1 <= count) by (nonlinear_arith)
            requires
                per_row >= 1,
                rem > 0,
                q >= 0,
                q * per_row + rem == count,
        ;
        q + 1
    } else {
        q
    }
}

/// The top-left corner of the preview at position `index` (in stacking
/// order) when `per_row` previews of size `size` fill each row.
pub open spec fn preview_origin(index: int, per_row: int, size: Size) -> (int, int) {
    (
        PREVIEW_PADDING + (PREVIEW_PADDING + size.w) * (index % per_row),
        PREVIEW_PADDING + (PREVIEW_PADDING + size.h) * (index / per_row),
    )
}

/// Whether the preview at `index` can be placed with `i32` arithmetic.
pub open spec fn preview_fits(index: int, per_row: int, size: Size) -> bool {
    &&& 0 <= index / per_row <= i32::MAX
    &&& i32::MIN <= PREVIEW_PADDING + size.w <= i32::MAX
    &&& i32::MIN <= PREVIEW_PADDING + size.h <= i32::MAX
    &&& i32::MIN <= (PREVIEW_PADDING + size.w) * (index % per_row) <= i32::MAX
    &&& i32::MIN <= (PREVIEW_PADDING + size.h) * (index / per_row) <= i32::MAX
    &&& i32::MIN <= preview_origin(index, per_row, size).0 <= i32::MAX
    &&& i32::MIN <= preview_origin(index, per_row, size).1 <= i32::MAX
}

/// Where the preview at `index` goes: previews fill rows of `per_row` from
/// the left, each `size` big, with `PREVIEW_PADDING` pixels around them.
pub fn preview_location(index: usize, per_row: usize, size: Size) -> (p: Point)
    requires
        0 < per_row <= 4,
        preview_fits(index as int, per_row as int, size),
    ensures
        p.x == preview_origin(index as int, per_row as int, size).0,
        p.y == preview_origin(index as int, per_row as int, size).1,
{
    let column = index % per_row;
    let row = index / per_row;
    let step_x = PREVIEW_PADDING + size.w;
    let step_y = PREVIEW_PADDING + size.h;
    let x = PREVIEW_PADDING + step_x * (column as i32);
    let y = PREVIEW_PADDING + step_y * (row as i32);
    Point { x, y }
}

/// Two different previews never overlap when their size is not negative:
/// they differ in column or in row, and neighbouring cells are
/// `PREVIEW_PADDING` apart.
pub proof fn lemma_previews_disjoint(i: int, j: int, per_row: int, size: Size)
    requires
        0 <= i,
        0 <= j,
        i != j,
        per_row > 0,
        size.w >= 0,
        size.h >= 0,
    ensures
        ({
            let a = preview_origin(i, per_row, size);
            let b = preview_origin(j, per_row, size);
            a.0 + size.w <= b.0 || b.0 + size.w <= a.0 || a.1 + size.h <= b.1 || b.1 + size.h <= a.1
        }),
{
    let ci = i % per_row;
    let cj = j % per_row;
    let ri = i / per_row;
    let rj = j / per_row;
    assert(i == ri * per_row + ci && j == rj * per_row + cj) by (nonlinear_arith)
        requires
            per_row > 0,
            ci == i % per_row,
            cj == j % per_row,
            ri == i / per_row,
            rj == j / per_row,
    ;
    let sw = PREVIEW_PADDING + size.w;
    let sh = PREVIEW_PADDING + size.h;
    if ci != cj {
        if ci < cj {
            assert(sw * ci + sw <= sw * cj) by (nonlinear_arith)
                requires
                    ci < cj,
                    sw > 0,
            ;
        } else {
            assert(sw * cj + sw <= sw * ci) by (nonlinear_arith)
                requires
                    cj < ci,
                    sw > 0,
            ;
        }
    } else {
        assert(ri != rj);
        if ri < rj {
            assert(sh * ri + sh <= sh * rj) by (nonlinear_arith)
                requires
                    ri < rj,
                    sh > 0,
            ;
        } else {
            assert(sh * rj + sh <= sh * ri) by (nonlinear_arith)
                requires
                    rj < ri,
                    sh > 0,
            ;
        }
    }
}

/// Why submitting or presenting a frame failed.
#[derive(Debug, Clone, Copy, PartialEq, Eq, Structural)]
pub enum SwapFailure {
    /// The buffer was already swapped.
    AlreadySwapped,
    /// A temporary failure because the DRM device is inactive.
    DeviceInactive,
    /// A temporary failure because access to the DRM device was denied.
    AccessDenied,
    /// Any other temporary failure.
    OtherTemporary,
    /// The rendering context was lost; rendering cannot go on.
    ContextLost,
}

/// Whether the next frame is scheduled after the previous one was presented
/// (`None`) or failed with `failure`. A lost context is fatal and is not
/// handled here.
pub fn schedule_after_frame(failure: Option<SwapFailure>) -> (schedule: bool)
    requires
        failure != Some(SwapFailure::ContextLost),
    ensures
        schedule == match failure {
            None => true,
            Some(SwapFailure::AlreadySwapped) => true,
            Some(SwapFailure::AccessDenied) => true,
            _ => false,
        },
{
    match failure {
        None => true,
        Some(SwapFailure::AlreadySwapped) => true,
        Some(SwapFailure::DeviceInactive) => false,
        Some(SwapFailure::AccessDenied) => true,
        Some(SwapFailure::OtherTemporary) => false,
        Some(SwapFailure::ContextLost) => false,
    }
}

/// Whether rendering an output is tried again one refresh later: after a
/// render that produced no new frame (`Ok(false)`), or after an inactive
/// device or a denied access. A lost context is fatal and is not handled here.
pub fn reschedule_after_render(result: Result<bool, SwapFailure>) -> (reschedule: bool)
    requires
        result != Err::<bool, SwapFailure>(SwapFailure::ContextLost),
    ensures
        reschedule == match result {
            Ok(rendered) => !rendered,
            Err(SwapFailure::DeviceInactive) => true,
            Err(SwapFailure::AccessDenied) => true,
            Err(_) => false,
        },
{
    match result {
        Ok(rendered) => !rendered,
        Err(SwapFailure::AlreadySwapped) => false,
        Err(SwapFailure::DeviceInactive) => true,
        Err(SwapFailure::AccessDenied) => true,
        Err(SwapFailure::OtherTemporary) => false,
        Err(SwapFailure::ContextLost) => false,
    }
}

/// Whether the initial render of an output is tried again: after any
/// temporary failure. A lost context is fatal and is not handled here.
pub fn retry_initial_render(failure: Option<SwapFailure>) -> (retry: bool)
    requires
        failure != Some(SwapFailure::ContextLost),
    ensures
        retry == match failure {
            Some(SwapFailure::DeviceInactive) => true,
            Some(SwapFailure::AccessDenied) => true,
            Some(SwapFailure::OtherTemporary) => true,
            _ => false,
        },
{
    match failure {
        None => false,
        Some(SwapFailure::AlreadySwapped) => false,
        Some(_) => true,
    }
}

/// When the next repaint of an output is started after a frame was shown.
#[derive(Debug, Clone, Copy, PartialEq, Eq, Structural)]
pub enum RepaintTimer {
    /// Right away: the output's frames are copied from the primary GPU to
    /// another one, and a delay would cost too much.
    Immediate,
    /// After the repaint delay, which gives clients time to draw.
    Delayed,
}

/// The repaint timer for an output rendered on `render_node` when the
/// primary GPU is `primary_gpu` (device numbers).
pub fn repaint_timer(primary_gpu: u64, render_node: u64) -> (r: RepaintTimer)
    ensures
        r == if primary_gpu != render_node { RepaintTimer::Immediate } else { RepaintTimer::Delayed },
{
    if primary_gpu != render_node {
        RepaintTimer::Immediate
    } else {
        RepaintTimer::Delayed
    }
}

/// What a surface is told after an output was repainted.
#[derive(Debug, Clone, Copy, PartialEq, Eq, Structural)]
pub struct RepaintNotice {
    /// A frame callback, so that the client draws its next frame.
    pub frame: bool,
    /// Feedback on which buffers suit the output for direct scan-out.
    pub dmabuf_feedback: bool,
}

/// What a surface is told after the output was repainted: a layer surface
/// of the output always gets a frame callback, a window only when it is
/// shown on the output; each of them also gets the dmabuf feedback when the
/// backend has some for the output.
pub fn repaint_notice(layer_surface: bool, shown_on_output: bool, feedback_available: bool) -> (r: RepaintNotice)
    ensures
        r.frame == (layer_surface || shown_on_output),
        r.dmabuf_feedback == ((layer_surface || shown_on_output) && feedback_available),
{
    let frame = layer_surface || shown_on_output;
    RepaintNotice { frame, dmabuf_feedback: frame && feedback_available }
}

/// The number of frames that are fully redrawn after the buffers were reset.
pub const FULL_REDRAW_FRAMES: u8 = 4;

/// Counts down the frames that must be redrawn in full after the window's
/// buffers were reset.
#[derive(Debug)]
pub struct FullRedraw {
    remaining: u8,
}

/// The buffer age used for a frame: 0 (redraw everything) while full redraws
/// remain, else the age the backend reports (0 when it reports none).
pub open spec fn frame_age(remaining_after_tick: u8, buffer_age: Option<usize>) -> usize {
    if remaining_after_tick > 0 {
        0
    } else {
        match buffer_age {
            Some(a) => a,
            None => 0,
        }
    }
}

impl FullRedraw {
    /// The number of full redraws still owed.
    pub closed spec fn remaining(&self) -> u8 {
        self.remaining
    }

    /// No full redraw is owed.
    pub fn new() -> (r: FullRedraw)
        ensures
            r.remaining() == 0,
    {
        FullRedraw { remaining: 0 }
    }

    /// The buffers were reset.
    pub fn reset(&mut self)
        ensures
            final(self).remaining() == FULL_REDRAW_FRAMES,
    {
        self.remaining = FULL_REDRAW_FRAMES;
    }

    /// Starts a frame: one owed redraw is used up, and the buffer age to
    /// render the frame with is returned.
    pub fn next_frame_age(&mut self, buffer_age: Option<usize>) -> (age: usize)
        ensures
            final(self).remaining() == if old(self).remaining() > 0 {
                (old(self).remaining() - 1) as u8
            } else {
                0u8
            },
            age == frame_age(final(self).remaining(), buffer_age),
    {
        self.remaining = self.remaining.saturating_sub(1);
        if self.remaining > 0 {
            0
        } else {
            match buffer_age {
                Some(a) => a,
                None => 0,
            }
        }
    }
}

/// The index of the mode an output is driven with: the first mode marked as
/// preferred, or the first mode when none is.
pub fn preferred_mode_index(preferred: &Vec<bool>) -> (r: usize)
    ensures
        (exists|i: int| 0 <= i < preferred@.len() && preferred@[i]) ==> {
            &&& r < preferred@.len()
            &&& preferred@[r as int]
            &&& forall|k: int| 0 <= k < r ==> !preferred@[k]
        },
        !(exists|i: int| 0 <= i < preferred@.len() && preferred@[i]) ==> r == 0,
{
    let mut i: usize = 0;
    while i < preferred.len()
        invariant
            i <= preferred@.len(),
            forall|k: int| 0 <= k < i ==> !preferred@[k],
        decreases preferred@.len() - i,
    {
        if preferred[i] {
            return i;
        }
        i = i + 1;
    }
    0
}

/// The owed redraws after `steps` frames, starting from `remaining`.
pub open spec fn redraws_left(remaining: u8, steps: nat) -> u8
    decreases steps,
{
    if steps == 0 {
        remaining
    } else {
        let r = redraws_left(remaining, (steps - 1) as nat);
        if r > 0 { (r - 1) as u8 } else { 0u8 }
    }
}

/// After the buffers are reset, the next three frames are drawn in full
/// (buffer age 0), and from the fourth frame on the backend's buffer age is
/// used again.
pub proof fn lemma_full_redraw_after_reset(buffer_age: Option<usize>, steps: nat)
    requires
        steps >= 1,
    ensures
        steps <= 3 ==> frame_age(redraws_left(FULL_REDRAW_FRAMES, steps), buffer_age) == 0,
        steps >= 4 ==> frame_age(redraws_left(FULL_REDRAW_FRAMES, steps), buffer_age) == match buffer_age {
            Some(a) => a,
            None => 0,
        },
    decreases steps,
{
    reveal_with_fuel(redraws_left, 5);
    if steps > 4 {
        lemma_full_redraw_after_reset(buffer_age, (steps - 1) as nat);
        lemma_redraws_zero(FULL_REDRAW_FRAMES, steps);
    }
}

proof fn lemma_redraws_zero(remaining: u8, steps: nat)
    requires
        remaining == FULL_REDRAW_FRAMES,
        steps >= 4,
    ensures
        redraws_left(remaining, steps) == 0,
    decreases steps,
{
    reveal_with_fuel(redraws_left, 5);
    if steps > 4 {
        lemma_redraws_zero(remaining, (steps - 1) as nat);
    }
}

/// A buffer format: a fourcc code and a modifier.
pub type Format = (u32, u64);

fn has_format(formats: &Vec<Format>, f: Format) -> (b: bool)
    ensures
        b == formats@.contains(f),
{
    let mut i: usize = 0;
    while i < formats.len()
        invariant
            i <= formats@.len(),
            forall|k: int| 0 <= k < i ==> formats@[k] != f,
        decreases formats@.len() - i,
    {
        if formats[i].0 == f.0 && formats[i].1 == f.1 {
            assert(formats@[i as int] == f);
            return true;
        }
        i = i + 1;
    }
    false
}

/// The formats offered for direct scan-out on a surface: those that its
/// planes support and that the primary or the rendering GPU can also render
/// from, so that a buffer that cannot be scanned out can still be
/// composited. Each format is listed once, in the order the planes give them.
pub fn scanout_formats(plane_formats: &Vec<Format>, primary: &Vec<Format>, render: &Vec<Format>) -> (r: Vec<Format>)
    ensures
        r@.to_set() == plane_formats@.to_set().intersect(primary@.to_set().union(render@.to_set())),
        r@.no_duplicates(),
{
    let mut r: Vec<Format> = Vec::new();
    let mut i: usize = 0;
    while i < plane_formats.len()
        invariant
            i <= plane_formats@.len(),
            r@.no_duplicates(),
            forall|f: Format| r@.contains(f) <==> (plane_formats@.take(i as int).contains(f)
                && (primary@.contains(f) || render@.contains(f))),
        decreases plane_formats@.len() - i,
    {
        let f = plane_formats[i];
        let ghost before = r@;
        let ghost t0 = plane_formats@.take(i as int);
        let ghost t1 = plane_formats@.take(i + 1);
        assert forall|g: Format| t1.contains(g) <==> (t0.contains(g) || g == f) by {
            if t1.contains(g) {
                let k = choose|k: int| 0 <= k < t1.len() && t1[k] == g;
                if k < i {
                    assert(t0[k] == g);
                }
            }
            if t0.contains(g) {
                let k = choose|k: int| 0 <= k < t0.len() && t0[k] == g;
                assert(t1[k] == g);
            }
            if g == f {
                assert(t1[i as int] == g);
            }
        }
        let renderable = has_format(primary, f) || has_format(render, f);
        let listed = has_format(&r, f);
        if renderable && !listed {
            r.push(f);
            assert forall|g: Format| r@.contains(g) <==> (before.contains(g) || g == f) by {
                if r@.contains(g) {
                    let k = choose|k: int| 0 <= k < r@.len() && r@[k] == g;
                    if k < before.len() {
                        assert(before[k] == g);
                    }
                }
                if before.contains(g) {
                    let k = choose|k: int| 0 <= k < before.len() && before[k] == g;
                    assert(r@[k] == g);
                }
                if g == f {
                    assert(r@[before.len() as int] == g);
                }
            }
        }
        assert forall|g: Format| r@.contains(g) <==> (t1.contains(g) && (primary@.contains(g) || render@.contains(g))) by {
            if g == f {
            } else {
                assert(r@.contains(g) <==> before.contains(g));
            }
        }
        i = i + 1;
    }
    assert(plane_formats@.take(plane_formats@.len() as int) =~= plane_formats@);
    assert(r@.to_set() =~= plane_formats@.to_set().intersect(primary@.to_set().union(render@.to_set())));
    r
}

/// The lower-case form of a text, as Rust's `str::to_lowercase` computes it
/// (Unicode's full case mapping).
pub uninterp spec fn lowercase(s: Seq<char>) -> Seq<char>;

/// Calls `str::to_lowercase` and hands back the characters of the result.
/// The result depends on the text alone and is named by `lowercase`.
#[verifier::external_body]
fn lowercase_chars(s: &str) -> (r: Vec<char>)
    ensures
        r@ == lowercase(s@),
{
    s.to_lowercase().chars().collect()
}

/// Whether `needle` occurs in `hay` as a run of consecutive characters.
pub open spec fn occurs_in(hay: Seq<char>, needle: Seq<char>) -> bool {
    exists|i: int| 0 <= i && i + needle.len() <= hay.len() && #[trigger] hay.subrange(i, i + needle.len()) == needle
}

/// The word that marks an NVIDIA driver.
pub open spec fn nvidia_word() -> Seq<char> {
    seq!['n', 'v', 'i', 'd', 'i', 'a']
}

fn matches_at(hay: &Vec<char>, needle: &Vec<char>, start: usize) -> (b: bool)
    requires
        start + needle@.len() <= hay@.len(),
    ensures
        b == (hay@.subrange(start as int, start + needle@.len()) == needle@),
{
    let n = hay.len();
    let mut k: usize = 0;
    while k < needle.len()
        invariant
            n == hay@.len(),
            start + needle@.len() <= hay@.len(),
            k <= needle@.len(),
            forall|j: int| 0 <= j < k ==> hay@[start + j] == needle@[j],
        decreases needle@.len() - k,
    {
        let at = start + k;
        if hay[at] != needle[k] {
            assert(hay@.subrange(start as int, start + needle@.len())[k as int] != needle@[k as int]);
            return false;
        }
        k = k + 1;
    }
    assert(hay@.subrange(start as int, start + needle@.len()) =~= needle@);
    true
}

fn occurs(hay: &Vec<char>, needle: &Vec<char>) -> (b: bool)
    ensures
        b == occurs_in(hay@, needle@),
{
    if needle.len() > hay.len() {
        return false;
    }
    let last = hay.len() - needle.len();
    let mut i: usize = 0;
    loop
        invariant
            last + needle@.len() == hay@.len(),
            i <= last,
            forall|j: int| 0 <= j < i ==> #[trigger] hay@.subrange(j, j + needle@.len()) != needle@,
        decreases last - i,
    {
        if matches_at(hay, needle, i) {
            return true;
        }
        if i == last {
            assert forall|j: int| 0 <= j && j + needle@.len() <= hay@.len() implies #[trigger] hay@.subrange(
                j,
                j + needle@.len(),
            ) != needle@ by {
                assert(j <= last);
            }
            return false;
        }
        i = i + 1;
    }
}

/// Whether overlay planes may be used on a device whose DRM driver has the
/// name `driver_name` and the description `driver_description`: not when
/// either of them, in lower case, mentions "nvidia", because overlay planes
/// break on those cards.
pub fn overlay_planes_allowed(driver_name: &str, driver_description: &str) -> (b: bool)
    ensures
        b == !(occurs_in(lowercase(driver_name@), nvidia_word()) || occurs_in(
            lowercase(driver_description@),
            nvidia_word(),
        )),
{
    let mut word: Vec<char> = Vec::new();
    word.push('n');
    word.push('v');
    word.push('i');
    word.push('d');
    word.push('i');
    word.push('a');
    assert(word@ =~= nvidia_word());
    let name = lowercase_chars(driver_name);
    let description = lowercase_chars(driver_description);
    !(occurs(&name, &word) || occurs(&description, &word))
}

/// What an output shows in a frame.
#[derive(Debug, Clone, Copy, PartialEq, Eq, Structural)]
pub enum OutputContent {
    /// Only the lock surface of the session lock.
    LockScreen,
    /// The cursor and other custom elements, then, when `previews` is set,
    /// the window previews, then the windows of the space.
    Desktop { previews: bool },
}

/// What an output shows: the lock screen while the session is locked;
/// otherwise the desktop, with window previews when they are asked for and
/// the output shows at least one window.
pub fn output_content(session_locked: bool, show_window_preview: bool, windows_on_output: usize) -> (r: OutputContent)
    ensures
        r == if session_locked {
            OutputContent::LockScreen
        } else {
            OutputContent::Desktop { previews: show_window_preview && windows_on_output > 0 }
        },
{
    if session_locked {
        OutputContent::LockScreen
    } else {
        OutputContent::Desktop { previews: show_window_preview && windows_on_output > 0 }
    }
}

} // verus!
