//! Transactional framebuffer damage analysis and refresh history.

use std::collections::hash_map::RandomState;

use vstd::prelude::*;

use crate::display::{
    DisplayCapabilities, PixelFormat, Rect, Size, UpdateProfile, Waveform, first_profile, rect,
};
use crate::graphics::{Framebuffer, point_at, lemma_coords_in_frame, lemma_index_decomposes};

verus! {

/// Creates a std `RandomState`; its keys are drawn from process randomness.
///
/// Calls `RandomState::new`. Nothing is claimed of the keys.
#[verifier::external_body]
fn new_random_state() -> RandomState {
    RandomState::new()
}

/// Hashes a fixed byte with the state's keyed SipHash.
///
/// Calls `BuildHasher::hash_one` on `RandomState`. Nothing is claimed of the
/// value: it depends on the state's random keys.
#[verifier::external_body]
fn random_state_token(state: &RandomState) -> u64 {
    std::hash::BuildHasher::hash_one(state, 0u8)
}

/// A token that tells runtimes apart: a keyed hash under a freshly keyed
/// `RandomState`, so two runtimes share one only by chance.
fn fresh_runtime_id() -> u64 {
    let state = new_random_state();
    random_state_token(&state)
}

/// Policy thresholds applied by [`RefreshRuntime`].
#[derive(Clone, Copy, Debug, PartialEq, Eq, Structural)]
pub struct RefreshPolicy {
    /// Force a cleanup once this many successful partial updates have run.
    pub max_consecutive_partials: u32,
    /// Refreshed regions at or above this panel percentage use a full refresh.
    pub full_refresh_threshold_percent: u8,
}

impl Default for RefreshPolicy {
    fn default() -> (r: RefreshPolicy)
        ensures
            r == (RefreshPolicy { max_consecutive_partials: 12, full_refresh_threshold_percent: 35 }),
    {
        RefreshPolicy { max_consecutive_partials: 12, full_refresh_threshold_percent: 35 }
    }
}

/// One semantic refresh decision.
#[derive(Clone, Copy, Debug, PartialEq, Eq, Structural)]
pub enum RefreshPlan {
    /// No pixels changed.
    Noop,
    /// Refresh one bounded region.
    Partial {
        /// Final legal region, including required alignment expansion.
        region: Rect,
        /// Semantic waveform required for this update.
        waveform: Waveform,
        /// Target pixel format the backend must produce.
        pixel_format: PixelFormat,
        /// Number of framebuffer pixels whose values changed.
        changed_pixels: usize,
    },
    /// Refresh the complete panel.
    Full {
        /// Semantic waveform required for this update.
        waveform: Waveform,
        /// Target pixel format the backend must produce.
        pixel_format: PixelFormat,
        /// Number of framebuffer pixels whose values changed.
        changed_pixels: usize,
    },
}

/// A plan bound to the exact framebuffer generation that produced it.
///
/// The value is intentionally neither cloneable nor publicly constructible.
/// Pass its plan and framebuffer to a backend, then move it into
/// [`RefreshRuntime::commit_success`] only after the physical operation
/// completes.
#[derive(Debug)]
pub struct PendingRefresh {
    runtime_id: u64,
    generation: u64,
    plan: RefreshPlan,
    next: Framebuffer,
}

impl PendingRefresh {
    #[verifier::type_invariant]
    spec fn inv(self) -> bool {
        self.next.wf()
    }

    pub closed spec fn spec_runtime_id(&self) -> u64 {
        self.runtime_id
    }

    pub closed spec fn spec_generation(&self) -> u64 {
        self.generation
    }

    pub closed spec fn spec_plan(&self) -> RefreshPlan {
        self.plan
    }

    pub closed spec fn spec_next(&self) -> Framebuffer {
        self.next
    }

    /// Returns the semantic operation to execute.
    pub fn plan(&self) -> (r: RefreshPlan)
        ensures
            r == self.spec_plan(),
    {
        self.plan
    }

    /// Returns the framebuffer associated with the operation.
    pub fn framebuffer(&self) -> (r: &Framebuffer)
        ensures
            *r == self.spec_next(),
            r.wf(),
    {
        proof {
            use_type_invariant(self);
        }
        &self.next
    }
}

/// Refresh-planning or commit failure.
#[derive(Clone, Debug, PartialEq, Eq, Structural)]
pub enum RuntimeError {
    /// The next frame or display capabilities have different dimensions.
    SizeMismatch,
    /// A policy percentage falls outside `1..=100`.
    InvalidPolicy,
    /// The display does not advertise a safe update profile.
    UnsupportedCapabilities,
    /// Another commit or uncertain failure invalidated this pending update.
    StalePendingRefresh,
}

pub open spec fn runtime_error_text(e: RuntimeError) -> Seq<char> {
    match e {
        RuntimeError::SizeMismatch => "framebuffer sizes do not match"@,
        RuntimeError::InvalidPolicy => "full_refresh_threshold_percent must be in the inclusive range 1..=100"@,
        RuntimeError::UnsupportedCapabilities => "display does not advertise a safe update profile"@,
        RuntimeError::StalePendingRefresh => "pending refresh no longer matches runtime state"@,
    }
}

impl RuntimeError {
    /// A human-readable description of the failure.
    pub fn message(&self) -> (r: &'static str)
        ensures
            r@ == runtime_error_text(*self),
    {
        match self {
            RuntimeError::SizeMismatch => "framebuffer sizes do not match",
            RuntimeError::InvalidPolicy => "full_refresh_threshold_percent must be in the inclusive range 1..=100",
            RuntimeError::UnsupportedCapabilities => "display does not advertise a safe update profile",
            RuntimeError::StalePendingRefresh => "pending refresh no longer matches runtime state",
        }
    }
}

// ---------------------------------------------------------------------------
// Damage analysis.

/// Bounding box and count of changed pixels among the first `n` indices:
/// `(min_x, min_y, max_x, max_y, count)`.
pub open spec fn diff_fold(prev: Seq<u8>, next: Seq<u8>, width: u32, n: int) -> (int, int, int, int, int)
    decreases n,
{
    if n <= 0 {
        (u32::MAX as int, u32::MAX as int, 0, 0, 0)
    } else {
        let (a, b, c, d, e) = diff_fold(prev, next, width, n - 1);
        if prev[n - 1] == next[n - 1] {
            (a, b, c, d, e)
        } else {
            let p = point_at(n - 1, width);
            (
                if p.x < a { p.x as int } else { a },
                if p.y < b { p.y as int } else { b },
                if p.x > c { p.x as int } else { c },
                if p.y > d { p.y as int } else { d },
                e + 1,
            )
        }
    }
}

/// The tight bounding rectangle of the changed pixels and their number, or
/// `None` when no pixel changed.
pub open spec fn spec_diff(prev: Seq<u8>, next: Seq<u8>, width: u32) -> Option<(Rect, int)> {
    let (min_x, min_y, max_x, max_y, count) = diff_fold(prev, next, width, next.len() as int);
    if count > 0 {
        Some(
            (
                rect(min_x as u32, min_y as u32, (max_x - min_x + 1) as u32, (max_y - min_y + 1) as u32),
                count,
            ),
        )
    } else {
        None
    }
}

/// Whether index `i` holds a different value in the two frames.
pub open spec fn changed_at(prev: Seq<u8>, next: Seq<u8>, i: int) -> bool {
    prev[i] != next[i]
}

/// Every changed pixel among the first `n` lies inside the accumulated box.
proof fn lemma_diff_fold_bounds(prev: Seq<u8>, next: Seq<u8>, width: u32, height: u32, n: int)
    requires
        0 <= n <= prev.len(),
        prev.len() == next.len(),
        next.len() == width * height,
        width > 0,
        width * height <= u32::MAX,
    ensures
        ({
            let (a, b, c, d, e) = diff_fold(prev, next, width, n);
            &&& 0 <= e <= n
            &&& e > 0 ==> 0 <= a <= c < width && 0 <= b <= d < height
            &&& forall|i: int|
                0 <= i < n && #[trigger] changed_at(prev, next, i) ==> a <= point_at(i, width).x <= c && b
                    <= point_at(i, width).y <= d
            &&& e == 0 ==> forall|i: int| 0 <= i < n ==> !#[trigger] changed_at(prev, next, i)
            &&& e == 0 ==> a == u32::MAX && b == u32::MAX && c == 0 && d == 0
        }),
    decreases n,
{
    if n > 0 {
        lemma_diff_fold_bounds(prev, next, width, height, n - 1);
        lemma_coords_in_frame(n - 1, width as int, height as int);
        let (a0, b0, c0, d0, e0) = diff_fold(prev, next, width, n - 1);
        let (a, b, c, d, e) = diff_fold(prev, next, width, n);
        let p = point_at(n - 1, width);
        assert(p.x as int == (n - 1) % (width as int));
        assert(p.y as int == (n - 1) / (width as int));
        assert(p.x < width && p.y < height);
        if prev[n - 1] != next[n - 1] {
            if e0 == 0 {
                assert(a0 == u32::MAX && c0 == 0);
                assert(a == p.x);
                assert(c == p.x);
                assert(b == p.y);
                assert(d == p.y);
            } else {
                assert(0 <= a0 <= c0 < width);
            }
        } else {
            assert((a, b, c, d, e) == (a0, b0, c0, d0, e0));
        }
        assert forall|i: int|
            0 <= i < n && #[trigger] changed_at(prev, next, i) implies a <= point_at(i, width).x <= c && b
                <= point_at(i, width).y <= d by {
            if i < n - 1 {
                assert(a0 <= point_at(i, width).x <= c0);
            }
        }
        if e == 0 {
            assert forall|i: int| 0 <= i < n implies !#[trigger] changed_at(prev, next, i) by {
                if i < n - 1 {
                    assert(!changed_at(prev, next, i));
                }
            }
        }
    }
}

/// The box of `spec_diff` contains every changed pixel, and an absent box
/// means that no pixel changed.
pub proof fn lemma_diff_covers_changes(prev: Seq<u8>, next: Seq<u8>, size: Size)
    requires
        crate::graphics::valid_frame_size(size),
        prev.len() == size.area(),
        next.len() == size.area(),
    ensures
        match spec_diff(prev, next, size.width) {
            Some((bounds, count)) => {
                &&& 0 < count <= next.len()
                &&& bounds.origin.x as int + bounds.size.width <= size.width
                &&& bounds.origin.y as int + bounds.size.height <= size.height
                &&& !bounds.size.spec_is_empty()
                &&& forall|i: int|
                    0 <= i < next.len() && #[trigger] changed_at(prev, next, i) ==> bounds.spec_contains(
                        point_at(i, size.width),
                    )
            },
            None => forall|i: int| 0 <= i < next.len() ==> !#[trigger] changed_at(prev, next, i),
        },
{
    lemma_diff_fold_bounds(prev, next, size.width, size.height, next.len() as int);
}

#[derive(Clone, Copy)]
struct Diff {
    bounds: Rect,
    changed_pixels: usize,
}

fn diff(previous: &Framebuffer, next: &Framebuffer) -> (r: Option<Diff>)
    requires
        previous.wf(),
        next.wf(),
        previous.spec_size() == next.spec_size(),
    ensures
        match spec_diff(previous@, next@, next.spec_size().width) {
            Some((bounds, count)) => r matches Some(d) && d.bounds == bounds && d.changed_pixels == count,
            None => r is None,
        },
{
    let prev = previous.pixels();
    let cur = next.pixels();
    let width = next.size().width;
    let height = next.size().height;
    let len = cur.len();
    let mut min_x = u32::MAX;
    let mut min_y = u32::MAX;
    let mut max_x: u32 = 0;
    let mut max_y: u32 = 0;
    let mut changed_pixels: usize = 0;
    let mut index: usize = 0;
    while index < len
        invariant
            len == cur@.len(),
            prev@.len() == cur@.len(),
            cur@.len() == width * height,
            width > 0,
            width * height <= u32::MAX,
            prev@ == previous@,
            cur@ == next@,
            width == next.spec_size().width,
            0 <= index <= len,
            diff_fold(prev@, cur@, width, index as int) == (
                min_x as int,
                min_y as int,
                max_x as int,
                max_y as int,
                changed_pixels as int,
            ),
            changed_pixels <= index,
        decreases len - index,
    {
        if prev[index] != cur[index] {
            proof {
                lemma_coords_in_frame(index as int, width as int, height as int);
            }
            let x = (index % width as usize) as u32;
            let y = (index / width as usize) as u32;
            if x < min_x {
                min_x = x;
            }
            if y < min_y {
                min_y = y;
            }
            if x > max_x {
                max_x = x;
            }
            if y > max_y {
                max_y = y;
            }
            changed_pixels = changed_pixels + 1;
        }
        index = index + 1;
    }
    proof {
        lemma_diff_fold_bounds(prev@, cur@, width, height, len as int);
    }
    if changed_pixels > 0 {
        Some(Diff {
            bounds: Rect::new(min_x, min_y, max_x - min_x + 1, max_y - min_y + 1),
            changed_pixels,
        })
    } else {
        None
    }
}

/// Whether every pixel of `frame` inside `region` is pure black or white.
pub open spec fn spec_region_is_binary(pixels: Seq<u8>, width: u32, region: Rect) -> bool {
    forall|i: int|
        0 <= i < pixels.len() && #[trigger] region.spec_contains(point_at(i, width)) ==> pixels[i] == 0
            || pixels[i] == 255
}

fn region_is_binary(frame: &Framebuffer, region: Rect) -> (r: bool)
    requires
        frame.wf(),
        region.size.width == 0 || region.origin.x + region.size.width <= frame.spec_size().width,
        region.size.height == 0 || region.origin.y + region.size.height <= frame.spec_size().height,
    ensures
        r == spec_region_is_binary(frame@, frame.spec_size().width, region),
{
    let pixels = frame.pixels();
    let width = frame.size().width;
    let height = frame.size().height;
    if region.size.width == 0 || region.size.height == 0 {
        proof {
            assert forall|i: int|
                0 <= i < pixels@.len() && #[trigger] region.spec_contains(point_at(i, width)) implies pixels@[i]
                == 0 || pixels@[i] == 255 by {}
        }
        return true;
    }
    let x0 = region.origin.x;
    let x1 = region.origin.x + region.size.width;
    let y1 = region.origin.y + region.size.height;
    let mut y = region.origin.y;
    while y < y1
        invariant
            pixels@ == frame@,
            frame.wf(),
            width == frame.spec_size().width,
            height == frame.spec_size().height,
            pixels@.len() == width * height,
            x0 == region.origin.x,
            x1 == region.origin.x + region.size.width,
            y1 == region.origin.y + region.size.height,
            x1 <= width,
            y1 <= height,
            region.origin.y <= y <= y1,
            forall|i: int|
                0 <= i < pixels@.len() && #[trigger] region.spec_contains(point_at(i, width)) && point_at(
                    i,
                    width,
                ).y < y ==> pixels@[i] == 0 || pixels@[i] == 255,
        decreases y1 - y,
    {
        let mut x = x0;
        while x < x1
            invariant
                pixels@ == frame@,
                frame.wf(),
                width == frame.spec_size().width,
                height == frame.spec_size().height,
                pixels@.len() == width * height,
                x0 == region.origin.x,
                x1 == region.origin.x + region.size.width,
                y1 == region.origin.y + region.size.height,
                x1 <= width,
                y1 <= height,
                region.origin.y <= y < y1,
                x0 <= x <= x1,
                forall|i: int|
                    0 <= i < pixels@.len() && #[trigger] region.spec_contains(point_at(i, width)) && (
                    point_at(i, width).y < y || (point_at(i, width).y == y && point_at(i, width).x < x))
                        ==> pixels@[i] == 0 || pixels@[i] == 255,
            decreases x1 - x,
        {
            proof {
                crate::graphics::lemma_index_in_frame(x as int, y as int, width as int, height as int);
                crate::graphics::lemma_coords(x as int, y as int, width as int);
            }
            let index = y as usize * width as usize + x as usize;
            let pixel = pixels[index];
            if pixel != 0 && pixel != 255 {
                proof {
                    assert(region.spec_contains(point_at(index as int, width)));
                }
                return false;
            }
            proof {
                assert forall|i: int|
                    0 <= i < pixels@.len() && #[trigger] region.spec_contains(point_at(i, width)) && (
                    point_at(i, width).y < y || (point_at(i, width).y == y && point_at(i, width).x < x
                        + 1)) implies pixels@[i] == 0 || pixels@[i] == 255 by {
                    if point_at(i, width).y == y && point_at(i, width).x == x {
                        lemma_index_decomposes(i, width as int);
                        lemma_coords_in_frame(i, width as int, height as int);
                    }
                }
            }
            x = x + 1;
        }
        y = y + 1;
    }
    proof {
        assert forall|i: int|
            0 <= i < pixels@.len() && #[trigger] region.spec_contains(point_at(i, width)) implies pixels@[i]
            == 0 || pixels@[i] == 255 by {
            lemma_coords_in_frame(i, width as int, height as int);
        }
    }
    true
}

// ---------------------------------------------------------------------------
// Planning.

/// The best grayscale profile: Gray8, then Gray4, Gray2 and Monochrome1.
pub open spec fn spec_quality_profile(caps: DisplayCapabilities) -> Option<UpdateProfile> {
    let p8 = caps.spec_profile(PixelFormat::Gray8, Waveform::Grayscale);
    let p4 = caps.spec_profile(PixelFormat::Gray4, Waveform::Grayscale);
    let p2 = caps.spec_profile(PixelFormat::Gray2, Waveform::Grayscale);
    let p1 = caps.spec_profile(PixelFormat::Monochrome1, Waveform::Grayscale);
    if p8 is Some {
        p8
    } else if p4 is Some {
        p4
    } else if p2 is Some {
        p2
    } else {
        p1
    }
}

/// Whether a non-empty `outer` contains all of `inner`.
pub open spec fn spec_region_covers(outer: Rect, inner: Rect) -> bool {
    &&& !outer.size.spec_is_empty()
    &&& outer.origin.x <= inner.origin.x
    &&& outer.origin.y <= inner.origin.y
    &&& outer.spec_right() >= inner.spec_right()
    &&& outer.spec_bottom() >= inner.spec_bottom()
}

/// Whether `region` covers at least `threshold` percent of the panel.
pub open spec fn spec_area_at_least(region: Rect, panel: Size, threshold: u8) -> bool {
    region.size.width * region.size.height * 100 >= panel.width * panel.height * threshold
}

/// The partial refresh to use for the changed `bounds`, if any: the aligned
/// fast monochrome region when both frames are binary there, otherwise the
/// aligned quality region.
pub open spec fn spec_partial_candidate(
    prev: Seq<u8>,
    next: Seq<u8>,
    size: Size,
    bounds: Rect,
    caps: DisplayCapabilities,
    quality: UpdateProfile,
) -> Option<(Rect, UpdateProfile)> {
    let fast_choice = match caps.spec_profile(PixelFormat::Monochrome1, Waveform::FastMonochrome) {
        Some(fast) => {
            let aligned = fast.constraints.spec_align_region(bounds, size);
            if fast.partial && spec_region_covers(aligned, bounds) && spec_region_is_binary(prev, size.width, aligned)
                && spec_region_is_binary(next, size.width, aligned) {
                Some((aligned, fast))
            } else {
                None
            }
        },
        None => None,
    };
    if fast_choice is Some {
        fast_choice
    } else {
        let aligned = quality.constraints.spec_align_region(bounds, size);
        if quality.partial && spec_region_covers(aligned, bounds) {
            Some((aligned, quality))
        } else {
            None
        }
    }
}

/// The refresh decision for moving the panel from `prev` to `next`.
pub open spec fn spec_plan_frames(
    prev: Seq<u8>,
    next: Seq<u8>,
    size: Size,
    caps: DisplayCapabilities,
    policy: RefreshPolicy,
    consecutive_partials: u32,
    uncertain: bool,
) -> Result<RefreshPlan, RuntimeError> {
    let difference = spec_diff(prev, next, size.width);
    if difference is None && !uncertain {
        Ok(RefreshPlan::Noop)
    } else {
        match spec_quality_profile(caps) {
            None => Err(RuntimeError::UnsupportedCapabilities),
            Some(quality) => {
                let changed: int = match difference {
                    Some((_, count)) => count,
                    None => 0,
                };
                let full = RefreshPlan::Full {
                    waveform: quality.waveform,
                    pixel_format: quality.pixel_format,
                    changed_pixels: changed as usize,
                };
                if uncertain {
                    Ok(full)
                } else {
                    let bounds = match difference {
                        Some((b, _)) => b,
                        None => rect(0, 0, 0, 0),
                    };
                    match spec_partial_candidate(prev, next, size, bounds, caps, quality) {
                        None => Ok(full),
                        Some((region, profile)) => {
                            if consecutive_partials >= policy.max_consecutive_partials || spec_area_at_least(
                                region,
                                size,
                                policy.full_refresh_threshold_percent,
                            ) {
                                Ok(full)
                            } else {
                                Ok(
                                    RefreshPlan::Partial {
                                        region,
                                        waveform: profile.waveform,
                                        pixel_format: profile.pixel_format,
                                        changed_pixels: changed as usize,
                                    },
                                )
                            }
                        },
                    }
                }
            },
        }
    }
}

fn quality_profile(capabilities: &DisplayCapabilities) -> (r: Option<UpdateProfile>)
    ensures
        r == spec_quality_profile(*capabilities),
{
    let p8 = capabilities.profile(PixelFormat::Gray8, Waveform::Grayscale);
    if p8.is_some() {
        return p8;
    }
    let p4 = capabilities.profile(PixelFormat::Gray4, Waveform::Grayscale);
    if p4.is_some() {
        return p4;
    }
    let p2 = capabilities.profile(PixelFormat::Gray2, Waveform::Grayscale);
    if p2.is_some() {
        return p2;
    }
    capabilities.profile(PixelFormat::Monochrome1, Waveform::Grayscale)
}

fn region_covers(outer: Rect, inner: Rect) -> (r: bool)
    ensures
        r == spec_region_covers(outer, inner),
{
    !outer.is_empty() && outer.origin.x <= inner.origin.x && outer.origin.y <= inner.origin.y
        && outer.right() >= inner.right() && outer.bottom() >= inner.bottom()
}

fn refreshed_area_at_least(region: Rect, panel: Size, threshold: u8) -> (r: bool)
    ensures
        r == spec_area_at_least(region, panel, threshold),
{
    let rw = region.size.width as u128;
    let rh = region.size.height as u128;
    let pw = panel.width as u128;
    let ph = panel.height as u128;
    let t = threshold as u128;
    proof {
        assert(rw * rh * 100 <= 0xffff_ffff * 0xffff_ffff * 100) by (nonlinear_arith)
            requires
                rw <= 0xffff_ffff,
                rh <= 0xffff_ffff,
        ;
        assert(pw * ph <= 0xffff_ffff * 0xffff_ffff) by (nonlinear_arith)
            requires
                pw <= 0xffff_ffff,
                ph <= 0xffff_ffff,
        ;
        assert(pw * ph * t <= 0xffff_ffff * 0xffff_ffff * 255) by (nonlinear_arith)
            requires
                pw * ph <= 0xffff_ffff * 0xffff_ffff,
                t <= 255,
        ;
    }
    let refreshed = rw * rh * 100;
    let whole = pw * ph * t;
    refreshed >= whole
}

fn partial_candidate(
    previous: &Framebuffer,
    next: &Framebuffer,
    bounds: Rect,
    capabilities: &DisplayCapabilities,
    quality: UpdateProfile,
) -> (r: Option<(Rect, UpdateProfile)>)
    requires
        previous.wf(),
        next.wf(),
        previous.spec_size() == next.spec_size(),
    ensures
        r == spec_partial_candidate(previous@, next@, next.spec_size(), bounds, *capabilities, quality),
{
    let size = next.size();
    if let Some(fast) = capabilities.profile(PixelFormat::Monochrome1, Waveform::FastMonochrome) {
        let aligned = fast.constraints().align_region(bounds, size);
        if fast.supports_partial() && region_covers(aligned, bounds) && region_is_binary(previous, aligned)
            && region_is_binary(next, aligned) {
            return Some((aligned, fast));
        }
    }
    let aligned = quality.constraints().align_region(bounds, size);
    if quality.supports_partial() && region_covers(aligned, bounds) {
        Some((aligned, quality))
    } else {
        None
    }
}

fn plan_frames(
    previous: &Framebuffer,
    next: &Framebuffer,
    capabilities: &DisplayCapabilities,
    policy: RefreshPolicy,
    consecutive_partials: u32,
    panel_state_uncertain: bool,
) -> (r: Result<RefreshPlan, RuntimeError>)
    requires
        previous.wf(),
        next.wf(),
        previous.spec_size() == next.spec_size(),
    ensures
        r == spec_plan_frames(
            previous@,
            next@,
            next.spec_size(),
            *capabilities,
            policy,
            consecutive_partials,
            panel_state_uncertain,
        ),
{
    let difference = diff(previous, next);
    if difference.is_none() && !panel_state_uncertain {
        return Ok(RefreshPlan::Noop);
    }
    let quality = match quality_profile(capabilities) {
        Some(quality) => quality,
        None => return Err(RuntimeError::UnsupportedCapabilities),
    };
    let changed_pixels = match difference {
        Some(d) => d.changed_pixels,
        None => 0,
    };
    if panel_state_uncertain {
        return Ok(
            RefreshPlan::Full {
                waveform: quality.waveform(),
                pixel_format: quality.pixel_format(),
                changed_pixels,
            },
        );
    }
    let bounds = match difference {
        Some(d) => d.bounds,
        None => {
            return Ok(
                RefreshPlan::Full {
                    waveform: quality.waveform(),
                    pixel_format: quality.pixel_format(),
                    changed_pixels,
                },
            );
        },
    };
    let partial = partial_candidate(previous, next, bounds, capabilities, quality);
    match partial {
        None => Ok(
            RefreshPlan::Full {
                waveform: quality.waveform(),
                pixel_format: quality.pixel_format(),
                changed_pixels,
            },
        ),
        Some((region, profile)) => {
            if consecutive_partials >= policy.max_consecutive_partials || refreshed_area_at_least(
                region,
                next.size(),
                policy.full_refresh_threshold_percent,
            ) {
                Ok(
                    RefreshPlan::Full {
                        waveform: quality.waveform(),
                        pixel_format: quality.pixel_format(),
                        changed_pixels,
                    },
                )
            } else {
                Ok(
                    RefreshPlan::Partial {
                        region,
                        waveform: profile.waveform(),
                        pixel_format: profile.pixel_format(),
                        changed_pixels,
                    },
                )
            }
        },
    }
}

/// A partial plan's region contains every pixel that differs between the
/// two frames.
pub proof fn lemma_partial_plan_covers_changes(
    prev: Seq<u8>,
    next: Seq<u8>,
    size: Size,
    caps: DisplayCapabilities,
    policy: RefreshPolicy,
    consecutive_partials: u32,
    uncertain: bool,
    i: int,
)
    requires
        crate::graphics::valid_frame_size(size),
        prev.len() == size.area(),
        next.len() == size.area(),
        0 <= i < next.len(),
        prev[i] != next[i],
        spec_plan_frames(prev, next, size, caps, policy, consecutive_partials, uncertain) is Ok,
        spec_plan_frames(prev, next, size, caps, policy, consecutive_partials, uncertain)->Ok_0 is Partial,
    ensures
        (spec_plan_frames(prev, next, size, caps, policy, consecutive_partials, uncertain)->Ok_0)->region.spec_contains(
            point_at(i, size.width),
        ),
{
    lemma_diff_covers_changes(prev, next, size);
    assert(changed_at(prev, next, i));
}

/// A partial plan never comes while the panel state is uncertain, nor once
/// the partial-refresh budget is spent.
pub proof fn lemma_partial_plan_requires_budget(
    prev: Seq<u8>,
    next: Seq<u8>,
    size: Size,
    caps: DisplayCapabilities,
    policy: RefreshPolicy,
    consecutive_partials: u32,
    uncertain: bool,
)
    requires
        uncertain || consecutive_partials >= policy.max_consecutive_partials,
    ensures
        !(spec_plan_frames(prev, next, size, caps, policy, consecutive_partials, uncertain) matches Ok(
            RefreshPlan::Partial { .. },
        )),
{
}

/// An uncertain panel state always yields a full refresh when the display
/// advertises a grayscale profile.
pub proof fn lemma_uncertain_state_plans_full(
    prev: Seq<u8>,
    next: Seq<u8>,
    size: Size,
    caps: DisplayCapabilities,
    policy: RefreshPolicy,
    consecutive_partials: u32,
)
    requires
        spec_quality_profile(caps) is Some,
    ensures
        spec_plan_frames(prev, next, size, caps, policy, consecutive_partials, true) matches Ok(
            RefreshPlan::Full { .. },
        ),
{
}

/// A fast monochrome partial plan comes only when the display advertises a
/// partial Monochrome1 fast-monochrome profile and both frames hold only
/// black and white pixels across the whole refreshed region.
pub proof fn lemma_fast_plan_requires_binary_frames(
    prev: Seq<u8>,
    next: Seq<u8>,
    size: Size,
    caps: DisplayCapabilities,
    policy: RefreshPolicy,
    consecutive_partials: u32,
    uncertain: bool,
)
    requires
        spec_plan_frames(prev, next, size, caps, policy, consecutive_partials, uncertain) matches Ok(
            RefreshPlan::Partial { waveform: Waveform::FastMonochrome, .. },
        ),
    ensures
        ({
            let plan = spec_plan_frames(prev, next, size, caps, policy, consecutive_partials, uncertain)->Ok_0;
            &&& plan->Partial_pixel_format == PixelFormat::Monochrome1
            &&& spec_region_is_binary(prev, size.width, plan->Partial_region)
            &&& spec_region_is_binary(next, size.width, plan->Partial_region)
            &&& caps.spec_profile(PixelFormat::Monochrome1, Waveform::FastMonochrome) is Some
            &&& caps.spec_profile(PixelFormat::Monochrome1, Waveform::FastMonochrome)->0.partial
        }),
{
    let profiles = caps.update_profiles@;
    crate::display::lemma_first_profile_matches(profiles, PixelFormat::Gray8, Waveform::Grayscale);
    crate::display::lemma_first_profile_matches(profiles, PixelFormat::Gray4, Waveform::Grayscale);
    crate::display::lemma_first_profile_matches(profiles, PixelFormat::Gray2, Waveform::Grayscale);
    crate::display::lemma_first_profile_matches(profiles, PixelFormat::Monochrome1, Waveform::Grayscale);
    crate::display::lemma_first_profile_matches(profiles, PixelFormat::Monochrome1, Waveform::FastMonochrome);
}

/// Planning is a function of the runtime state and the next frame's size
/// and pixels: two frames with the same size and pixels, such as a frame and
/// its clone, get the same plan.
pub proof fn lemma_planning_depends_only_on_pixels(
    prev: Seq<u8>,
    a: Framebuffer,
    b: Framebuffer,
    caps: DisplayCapabilities,
    policy: RefreshPolicy,
    consecutive_partials: u32,
    uncertain: bool,
)
    requires
        a.spec_size() == b.spec_size(),
        a@ == b@,
    ensures
        spec_plan_frames(prev, a@, a.spec_size(), caps, policy, consecutive_partials, uncertain) == spec_plan_frames(
            prev,
            b@,
            b.spec_size(),
            caps,
            policy,
            consecutive_partials,
            uncertain,
        ),
{
}

/// A partial refresh never covers the policy's share of the panel: every
/// partial plan's region is smaller than `full_refresh_threshold_percent`
/// percent of the panel's area, so a change that needs a region at least
/// that large is refreshed in full.
pub proof fn lemma_partial_plan_below_threshold(
    prev: Seq<u8>,
    next: Seq<u8>,
    size: Size,
    caps: DisplayCapabilities,
    policy: RefreshPolicy,
    consecutive_partials: u32,
    uncertain: bool,
)
    requires
        spec_plan_frames(prev, next, size, caps, policy, consecutive_partials, uncertain) matches Ok(
            RefreshPlan::Partial { .. },
        ),
    ensures
        ({
            let region = spec_plan_frames(prev, next, size, caps, policy, consecutive_partials, uncertain)->Ok_0->Partial_region;
            region.size.width * region.size.height * 100 < size.width * size.height
                * policy.full_refresh_threshold_percent
        }),
{
}

/// A refresh is skipped only when nothing changed: a no-op plan comes only
/// while the panel state is certain and the next frame equals the previous
/// one pixel for pixel.
pub proof fn lemma_noop_only_for_unchanged_frames(
    prev: Seq<u8>,
    next: Seq<u8>,
    size: Size,
    caps: DisplayCapabilities,
    policy: RefreshPolicy,
    consecutive_partials: u32,
    uncertain: bool,
)
    requires
        crate::graphics::valid_frame_size(size),
        prev.len() == size.area(),
        next.len() == size.area(),
        spec_plan_frames(prev, next, size, caps, policy, consecutive_partials, uncertain) == Ok::<
            RefreshPlan,
            RuntimeError,
        >(RefreshPlan::Noop),
    ensures
        !uncertain,
        prev == next,
{
    lemma_diff_covers_changes(prev, next, size);
    assert forall|i: int| 0 <= i < next.len() implies prev[i] == next[i] by {
        assert(!changed_at(prev, next, i));
    }
    assert(prev =~= next);
}

/// Framebuffer reference and panel-aging state.
#[derive(Debug)]
pub struct RefreshRuntime {
    runtime_id: u64,
    policy: RefreshPolicy,
    previous: Framebuffer,
    consecutive_partials: u32,
    generation: u64,
    panel_state_uncertain: bool,
}

/// Whether a threshold is a percentage in `1..=100`.
pub open spec fn valid_policy(policy: RefreshPolicy) -> bool {
    1 <= policy.full_refresh_threshold_percent <= 100
}

impl RefreshRuntime {
    #[verifier::type_invariant]
    spec fn inv(self) -> bool {
        &&& self.previous.wf()
        &&& valid_policy(self.policy)
    }

    pub closed spec fn spec_runtime_id(&self) -> u64 {
        self.runtime_id
    }

    pub closed spec fn spec_policy(&self) -> RefreshPolicy {
        self.policy
    }

    pub closed spec fn spec_previous(&self) -> Framebuffer {
        self.previous
    }

    pub closed spec fn spec_consecutive_partials(&self) -> u32 {
        self.consecutive_partials
    }

    pub closed spec fn spec_generation(&self) -> u64 {
        self.generation
    }

    pub closed spec fn spec_uncertain(&self) -> bool {
        self.panel_state_uncertain
    }

    /// Creates runtime state without assuming what is currently on the panel.
    ///
    /// The supplied framebuffer is a reference for diagnostics only until one
    /// full update succeeds. This is the safe constructor for cold starts and
    /// processes that have not restored trustworthy persisted state.
    pub fn new(reference: Framebuffer, policy: RefreshPolicy) -> (r: Result<RefreshRuntime, RuntimeError>)
        requires
            reference.wf(),
        ensures
            match r {
                Ok(runtime) => {
                    &&& valid_policy(policy)
                    &&& runtime.spec_policy() == policy
                    &&& runtime.spec_previous() == reference
                    &&& runtime.spec_consecutive_partials() == 0
                    &&& runtime.spec_generation() == 0
                    &&& runtime.spec_uncertain()
                },
                Err(e) => !valid_policy(policy) && e == RuntimeError::InvalidPolicy,
            },
    {
        if policy.full_refresh_threshold_percent < 1 || policy.full_refresh_threshold_percent > 100 {
            return Err(RuntimeError::InvalidPolicy);
        }
        Ok(
            RefreshRuntime {
                runtime_id: fresh_runtime_id(),
                policy,
                previous: reference,
                consecutive_partials: 0,
                generation: 0,
                panel_state_uncertain: true,
            },
        )
    }

    /// Restores state known to match the persistent panel.
    ///
    /// Use this only after validating that both the framebuffer and partial
    /// refresh count were persisted after confirmed backend success.
    pub fn from_known_panel_state(previous: Framebuffer, consecutive_partials: u32, policy: RefreshPolicy) -> (r: Result<
        RefreshRuntime,
        RuntimeError,
    >)
        requires
            previous.wf(),
        ensures
            match r {
                Ok(runtime) => {
                    &&& valid_policy(policy)
                    &&& runtime.spec_policy() == policy
                    &&& runtime.spec_previous() == previous
                    &&& runtime.spec_consecutive_partials() == consecutive_partials
                    &&& runtime.spec_generation() == 0
                    &&& !runtime.spec_uncertain()
                },
                Err(e) => !valid_policy(policy) && e == RuntimeError::InvalidPolicy,
            },
    {
        let mut runtime = match RefreshRuntime::new(previous, policy) {
            Ok(runtime) => runtime,
            Err(error) => return Err(error),
        };
        runtime.consecutive_partials = consecutive_partials;
        runtime.panel_state_uncertain = false;
        Ok(runtime)
    }

    /// Returns the framebuffer currently used as the committed-state reference.
    ///
    /// It is authoritative only when [`Self::panel_state_uncertain`] is false.
    pub fn previous_frame(&self) -> (r: &Framebuffer)
        ensures
            *r == self.spec_previous(),
            r.wf(),
    {
        proof {
            use_type_invariant(self);
        }
        &self.previous
    }

    /// Returns the number of successful partial updates since the last cleanup.
    pub fn consecutive_partials(&self) -> (r: u32)
        ensures
            r == self.spec_consecutive_partials(),
    {
        self.consecutive_partials
    }

    /// Returns whether the next plan must re-establish the complete panel.
    pub fn panel_state_uncertain(&self) -> (r: bool)
        ensures
            r == self.spec_uncertain(),
    {
        self.panel_state_uncertain
    }

    /// Produces an opaque pending update without changing committed history.
    pub fn plan(&self, next: Framebuffer, capabilities: &DisplayCapabilities) -> (r: Result<PendingRefresh, RuntimeError>)
        requires
            next.wf(),
        ensures
            self.spec_previous().spec_size() != next.spec_size() || next.spec_size() != capabilities.native_size
                ==> r == Err::<PendingRefresh, RuntimeError>(RuntimeError::SizeMismatch),
            self.spec_previous().spec_size() == next.spec_size() && next.spec_size() == capabilities.native_size
                ==> match spec_plan_frames(
                self.spec_previous()@,
                next@,
                next.spec_size(),
                *capabilities,
                self.spec_policy(),
                self.spec_consecutive_partials(),
                self.spec_uncertain(),
            ) {
                Ok(plan) => r matches Ok(pending) && pending.spec_plan() == plan && pending.spec_next() == next
                    && pending.spec_runtime_id() == self.spec_runtime_id() && pending.spec_generation()
                    == self.spec_generation(),
                Err(e) => r == Err::<PendingRefresh, RuntimeError>(e),
            },
    {
        proof {
            use_type_invariant(self);
        }
        if self.previous.size() != next.size() || next.size() != capabilities.native_size {
            return Err(RuntimeError::SizeMismatch);
        }
        let plan = match plan_frames(
            &self.previous,
            &next,
            capabilities,
            self.policy,
            self.consecutive_partials,
            self.panel_state_uncertain,
        ) {
            Ok(plan) => plan,
            Err(error) => return Err(error),
        };
        Ok(PendingRefresh { runtime_id: self.runtime_id, generation: self.generation, plan, next })
    }

    /// Atomically commits framebuffer and panel-aging history after success.
    ///
    /// A pending refresh from another runtime, from an older generation, or
    /// of another size is rejected and changes nothing. A successful commit
    /// moves to a new generation, so every other outstanding pending refresh
    /// becomes stale.
    pub fn commit_success(&mut self, pending: PendingRefresh) -> (r: Result<(), RuntimeError>)
        ensures
            r is Err <==> (pending.spec_runtime_id() != old(self).spec_runtime_id() || pending.spec_generation()
                != old(self).spec_generation() || pending.spec_next().spec_size()
                != old(self).spec_previous().spec_size()),
            r is Err ==> r == Err::<(), RuntimeError>(RuntimeError::StalePendingRefresh) && *final(self) == *old(
                self,
            ),
            r is Ok ==> {
                &&& final(self).spec_previous() == pending.spec_next()
                &&& final(self).spec_runtime_id() == old(self).spec_runtime_id()
                &&& final(self).spec_policy() == old(self).spec_policy()
                &&& final(self).spec_generation() == (if old(self).spec_generation() == u64::MAX {
                    0
                } else {
                    (old(self).spec_generation() + 1) as u64
                })
                &&& final(self).spec_generation() != old(self).spec_generation()
                &&& match pending.spec_plan() {
                    RefreshPlan::Noop => final(self).spec_consecutive_partials()
                        == old(self).spec_consecutive_partials() && final(self).spec_uncertain()
                        == old(self).spec_uncertain(),
                    RefreshPlan::Partial { .. } => final(self).spec_consecutive_partials() == crate::display::sat_add(
                        old(self).spec_consecutive_partials(),
                        1,
                    ) && final(self).spec_uncertain() == old(self).spec_uncertain(),
                    RefreshPlan::Full { .. } => final(self).spec_consecutive_partials() == 0
                        && !final(self).spec_uncertain(),
                }
            },
    {
        proof {
            use_type_invariant(&*self);
            use_type_invariant(&pending);
        }
        if pending.runtime_id != self.runtime_id || pending.generation != self.generation
            || pending.next.size() != self.previous.size() {
            return Err(RuntimeError::StalePendingRefresh);
        }
        match pending.plan {
            RefreshPlan::Noop => {},
            RefreshPlan::Partial { .. } => {
                self.consecutive_partials = self.consecutive_partials.saturating_add(1);
            },
            RefreshPlan::Full { .. } => {
                self.consecutive_partials = 0;
                self.panel_state_uncertain = false;
            },
        }
        self.previous = pending.next;
        self.generation = self.generation.wrapping_add(1);
        Ok(())
    }

    /// Invalidates outstanding plans and forces the next operation to be full.
    ///
    /// Call this when a backend failure may have reached the panel but did not
    /// provide a trustworthy completion result.
    pub fn mark_panel_state_uncertain(&mut self)
        ensures
            final(self).spec_uncertain(),
            final(self).spec_generation() != old(self).spec_generation(),
            final(self).spec_generation() == (if old(self).spec_generation() == u64::MAX {
                0
            } else {
                (old(self).spec_generation() + 1) as u64
            }),
            final(self).spec_previous() == old(self).spec_previous(),
            final(self).spec_consecutive_partials() == old(self).spec_consecutive_partials(),
            final(self).spec_runtime_id() == old(self).spec_runtime_id(),
            final(self).spec_policy() == old(self).spec_policy(),
    {
        proof {
            use_type_invariant(&*self);
        }
        self.panel_state_uncertain = true;
        self.generation = self.generation.wrapping_add(1);
    }
}

/// The generation that follows `generation` after a commit or an
/// invalidation.
pub open spec fn next_generation(generation: u64) -> u64 {
    if generation == u64::MAX {
        0
    } else {
        (generation + 1) as u64
    }
}

/// Once a runtime moves to its next generation, by a successful commit or
/// by an uncertain failure, no refresh planned before can commit any more.
pub proof fn lemma_new_generation_makes_plans_stale(before: RefreshRuntime, after: RefreshRuntime, earlier: PendingRefresh)
    requires
        earlier.spec_generation() == before.spec_generation(),
        after.spec_generation() == next_generation(before.spec_generation()),
    ensures
        earlier.spec_generation() != after.spec_generation(),
{
}

} // verus!
