use paperos::display::{
    DisplayCapabilities, PixelFormat, Point, Rect, Size, UpdateConstraints, UpdateProfile, Waveform,
};
use paperos::graphics::{Framebuffer, Gray8};
use paperos::runtime::{RefreshPlan, RefreshPolicy, RefreshRuntime, RuntimeError};

fn profiles() -> Vec<UpdateProfile> {
    vec![
        UpdateProfile::new(PixelFormat::Gray8, Waveform::Grayscale, true, UpdateConstraints::unrestricted()),
        UpdateProfile::new(
            PixelFormat::Monochrome1,
            Waveform::FastMonochrome,
            true,
            UpdateConstraints::new(32, 1, 32, 1).unwrap(),
        ),
    ]
}

fn capabilities(size: Size) -> DisplayCapabilities {
    DisplayCapabilities { native_size: size, update_profiles: profiles() }
}

fn runtime(frame: Framebuffer) -> RefreshRuntime {
    RefreshRuntime::from_known_panel_state(frame, 0, RefreshPolicy::default()).unwrap()
}

#[test]
fn cold_start_forces_full_update_even_when_reference_matches() {
    let frame = Framebuffer::new(Size::new(64, 32), Gray8::white()).unwrap();
    let mut runtime = RefreshRuntime::new(frame.clone(), RefreshPolicy::default()).unwrap();

    assert!(runtime.panel_state_uncertain());
    let pending = runtime.plan(frame.clone(), &capabilities(frame.size())).unwrap();
    assert!(matches!(pending.plan(), RefreshPlan::Full { changed_pixels: 0, .. }));

    runtime.commit_success(pending).unwrap();
    assert!(!runtime.panel_state_uncertain());
    assert_eq!(runtime.previous_frame(), &frame);
}

#[test]
fn no_change_is_noop_and_commits_identical_frame() {
    let frame = Framebuffer::new(Size::new(64, 32), Gray8::white()).unwrap();
    let mut runtime = runtime(frame.clone());
    let pending = runtime.plan(frame.clone(), &capabilities(frame.size())).unwrap();
    assert_eq!(pending.plan(), RefreshPlan::Noop);
    runtime.commit_success(pending).unwrap();
    assert_eq!(runtime.previous_frame(), &frame);
    assert_eq!(runtime.consecutive_partials(), 0);
}

#[test]
fn planning_is_pure_and_commit_advances_frame_and_history_together() {
    let before = Framebuffer::new(Size::new(64, 32), Gray8::white()).unwrap();
    let mut after = before.clone();
    after.set(Point::new(33, 4), Gray8::black());
    let mut runtime = runtime(before.clone());

    let first = runtime.plan(after.clone(), &capabilities(after.size())).unwrap();
    let second = runtime.plan(after.clone(), &capabilities(after.size())).unwrap();
    assert_eq!(first.plan(), second.plan());
    assert_eq!(runtime.previous_frame(), &before);
    assert_eq!(runtime.consecutive_partials(), 0);

    runtime.commit_success(first).unwrap();
    assert_eq!(runtime.previous_frame(), &after);
    assert_eq!(runtime.consecutive_partials(), 1);
    assert_eq!(runtime.commit_success(second), Err(RuntimeError::StalePendingRefresh));
}

#[test]
fn pending_update_cannot_commit_to_a_different_runtime() {
    let before = Framebuffer::new(Size::new(64, 32), Gray8::white()).unwrap();
    let mut after = before.clone();
    after.set(Point::new(1, 1), Gray8::black());
    let source = runtime(before.clone());
    let pending = source.plan(after.clone(), &capabilities(after.size())).unwrap();
    let mut other = runtime(before);

    assert_eq!(other.commit_success(pending), Err(RuntimeError::StalePendingRefresh));
    assert_eq!(other.previous_frame().get(Point::new(1, 1)), Some(Gray8::white()));
}

#[test]
fn monochrome_transition_uses_aligned_fast_update() {
    let before = Framebuffer::new(Size::new(64, 32), Gray8::white()).unwrap();
    let mut after = before.clone();
    after.set(Point::new(33, 4), Gray8::black());
    let runtime = runtime(before);

    assert_eq!(
        runtime.plan(after.clone(), &capabilities(after.size())).unwrap().plan(),
        RefreshPlan::Partial {
            region: Rect::new(32, 4, 32, 1),
            waveform: Waveform::FastMonochrome,
            pixel_format: PixelFormat::Monochrome1,
            changed_pixels: 1,
        }
    );
}

#[test]
fn grayscale_to_white_transition_uses_quality_profile() {
    let mut before = Framebuffer::new(Size::new(64, 32), Gray8::white()).unwrap();
    before.set(Point::new(33, 4), Gray8(127));
    let after = Framebuffer::new(Size::new(64, 32), Gray8::white()).unwrap();
    let runtime = runtime(before);

    assert!(matches!(
        runtime.plan(after.clone(), &capabilities(after.size())).unwrap().plan(),
        RefreshPlan::Partial { waveform: Waveform::Grayscale, pixel_format: PixelFormat::Gray8, .. }
    ));
}

#[test]
fn grayscale_inside_aligned_region_prevents_fast_waveform() {
    let mut before = Framebuffer::new(Size::new(64, 32), Gray8::white()).unwrap();
    before.set(Point::new(40, 4), Gray8(127));
    let mut after = before.clone();
    after.set(Point::new(33, 4), Gray8::black());
    let runtime = runtime(before);

    assert!(matches!(
        runtime.plan(after.clone(), &capabilities(after.size())).unwrap().plan(),
        RefreshPlan::Partial {
            region: Rect { origin: Point { x: 33, y: 4 }, .. },
            waveform: Waveform::Grayscale,
            ..
        }
    ));
}

#[test]
fn unalignable_panel_edge_falls_back_without_dropping_pixels() {
    let size = Size::new(65, 1);
    let before = Framebuffer::new(size, Gray8::white()).unwrap();
    let mut after = before.clone();
    after.set(Point::new(64, 0), Gray8::black());
    let runtime = runtime(before);

    assert_eq!(
        runtime.plan(after, &capabilities(size)).unwrap().plan(),
        RefreshPlan::Partial {
            region: Rect::new(64, 0, 1, 1),
            waveform: Waveform::Grayscale,
            pixel_format: PixelFormat::Gray8,
            changed_pixels: 1,
        }
    );
}

#[test]
fn sparse_changes_with_panel_sized_bounds_force_full_refresh() {
    let before = Framebuffer::new(Size::new(64, 32), Gray8::white()).unwrap();
    let mut after = before.clone();
    after.set(Point::new(0, 0), Gray8::black());
    after.set(Point::new(63, 31), Gray8::black());
    let runtime = runtime(before);

    assert!(matches!(
        runtime.plan(after.clone(), &capabilities(after.size())).unwrap().plan(),
        RefreshPlan::Full { changed_pixels: 2, .. }
    ));
}

#[test]
fn unsupported_quality_profile_is_rejected() {
    let size = Size::new(64, 32);
    let capabilities = DisplayCapabilities {
        native_size: size,
        update_profiles: vec![UpdateProfile::new(
            PixelFormat::Monochrome1,
            Waveform::FastMonochrome,
            true,
            UpdateConstraints::unrestricted(),
        )],
    };
    let before = Framebuffer::new(size, Gray8::white()).unwrap();
    let mut after = before.clone();
    after.set(Point::new(1, 1), Gray8::black());
    let runtime = runtime(before);

    assert!(matches!(runtime.plan(after, &capabilities), Err(RuntimeError::UnsupportedCapabilities)));
}

#[test]
fn full_only_quality_profile_never_produces_partial_plan() {
    let size = Size::new(64, 32);
    let capabilities = DisplayCapabilities {
        native_size: size,
        update_profiles: vec![UpdateProfile::new(
            PixelFormat::Gray8,
            Waveform::Grayscale,
            false,
            UpdateConstraints::unrestricted(),
        )],
    };
    let before = Framebuffer::new(size, Gray8::white()).unwrap();
    let mut after = before.clone();
    after.set(Point::new(1, 1), Gray8::black());
    let runtime = runtime(before);

    assert!(matches!(runtime.plan(after, &capabilities).unwrap().plan(), RefreshPlan::Full { .. }));
}

#[test]
fn cleanup_is_forced_after_committed_partial_budget() {
    let before = Framebuffer::new(Size::new(64, 32), Gray8::white()).unwrap();
    let mut after = before.clone();
    after.set(Point::new(1, 1), Gray8::black());
    let policy = RefreshPolicy { max_consecutive_partials: 1, full_refresh_threshold_percent: 100 };
    let mut runtime = RefreshRuntime::from_known_panel_state(before, 0, policy).unwrap();
    let first = runtime.plan(after.clone(), &capabilities(after.size())).unwrap();
    assert!(matches!(first.plan(), RefreshPlan::Partial { .. }));
    runtime.commit_success(first).unwrap();

    let mut next = after;
    next.set(Point::new(2, 2), Gray8::black());
    assert!(matches!(
        runtime.plan(next.clone(), &capabilities(next.size())).unwrap().plan(),
        RefreshPlan::Full { .. }
    ));
}

#[test]
fn restored_partial_history_cannot_bypass_cleanup_budget() {
    let before = Framebuffer::new(Size::new(64, 32), Gray8::white()).unwrap();
    let mut after = before.clone();
    after.set(Point::new(1, 1), Gray8::black());
    let policy = RefreshPolicy { max_consecutive_partials: 3, full_refresh_threshold_percent: 100 };
    let runtime = RefreshRuntime::from_known_panel_state(before, 3, policy).unwrap();

    assert_eq!(runtime.consecutive_partials(), 3);
    assert!(matches!(
        runtime.plan(after.clone(), &capabilities(after.size())).unwrap().plan(),
        RefreshPlan::Full { .. }
    ));
}

#[test]
fn uncertain_failure_invalidates_pending_and_forces_full_cleanup() {
    let before = Framebuffer::new(Size::new(64, 32), Gray8::white()).unwrap();
    let mut after = before.clone();
    after.set(Point::new(1, 1), Gray8::black());
    let mut runtime = runtime(before);
    let stale = runtime.plan(after.clone(), &capabilities(after.size())).unwrap();

    runtime.mark_panel_state_uncertain();
    assert!(runtime.panel_state_uncertain());
    assert_eq!(runtime.commit_success(stale), Err(RuntimeError::StalePendingRefresh));

    let cleanup = runtime.plan(after.clone(), &capabilities(after.size())).unwrap();
    assert!(matches!(cleanup.plan(), RefreshPlan::Full { .. }));
    runtime.commit_success(cleanup).unwrap();
    assert!(!runtime.panel_state_uncertain());
    assert_eq!(runtime.previous_frame(), &after);
}

#[test]
fn every_partial_plan_covers_every_changed_pixel() {
    let cases: [(u32, u32, u32, u32, u32, u32); 8] = [
        (1, 1, 0, 0, 0, 0),
        (79, 59, 3, 4, 70, 50),
        (64, 32, 33, 4, 34, 4),
        (10, 10, u32::MAX, 7, 2, u32::MAX),
        (40, 1, 0, 0, 39, 0),
        (33, 17, 32, 16, 0, 0),
        (8, 60, 7, 59, 7, 58),
        (50, 50, 12, 12, 13, 13),
    ];
    for (width, height, first_x, first_y, second_x, second_y) in cases {
        let size = Size::new(width, height);
        let before = Framebuffer::new(size, Gray8::white()).unwrap();
        let mut after = before.clone();
        let first = Point::new(first_x % width, first_y % height);
        let second = Point::new(second_x % width, second_y % height);
        after.set(first, Gray8::black());
        after.set(second, Gray8::black());
        let runtime = runtime(before);
        let pending = runtime.plan(after, &capabilities(size)).unwrap();

        if let RefreshPlan::Partial { region, .. } = pending.plan() {
            assert!(region.contains(first));
            assert!(region.contains(second));
        }
    }
}

#[test]
fn policy_outside_one_to_a_hundred_percent_is_refused() {
    let frame = Framebuffer::new(Size::new(4, 4), Gray8::white()).unwrap();
    let zero = RefreshPolicy { max_consecutive_partials: 1, full_refresh_threshold_percent: 0 };
    assert!(matches!(RefreshRuntime::new(frame.clone(), zero), Err(RuntimeError::InvalidPolicy)));
    let over = RefreshPolicy { max_consecutive_partials: 1, full_refresh_threshold_percent: 101 };
    assert!(matches!(
        RefreshRuntime::from_known_panel_state(frame, 0, over),
        Err(RuntimeError::InvalidPolicy)
    ));
    assert_eq!(RefreshPolicy::default().max_consecutive_partials, 12);
    assert_eq!(RefreshPolicy::default().full_refresh_threshold_percent, 35);
}

#[test]
fn mismatched_frame_sizes_are_refused() {
    let before = Framebuffer::new(Size::new(4, 4), Gray8::white()).unwrap();
    let other = Framebuffer::new(Size::new(4, 5), Gray8::white()).unwrap();
    let runtime = runtime(before);
    assert!(matches!(runtime.plan(other, &capabilities(Size::new(4, 4))), Err(RuntimeError::SizeMismatch)));
    assert_eq!(RuntimeError::SizeMismatch.message(), "framebuffer sizes do not match");
    assert_eq!(
        RuntimeError::StalePendingRefresh.message(),
        "pending refresh no longer matches runtime state"
    );
}
