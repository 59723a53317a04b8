use paperos::assets::{AssetId, ImageFormat, ImageMetadata};
use paperos::display::{
    DisplayCapabilities, PixelFormat, Point, Rect, Size, UpdateConstraints, UpdateProfile, Waveform,
};
use paperos::text::FontFamily;

#[test]
fn intersection_uses_half_open_coordinates() {
    let left = Rect::new(0, 0, 10, 10);
    let right = Rect::new(9, 5, 5, 10);

    assert_eq!(left.intersection(right), Some(Rect::new(9, 5, 1, 5)));
    assert_eq!(left.intersection(Rect::new(10, 0, 1, 1)), None);
}

#[test]
fn aligns_fast_update_outward_and_clips_to_panel() {
    let constraints = UpdateConstraints::new(32, 1, 32, 1).unwrap();
    let panel = Size::new(1448, 1072);

    assert_eq!(
        constraints.align_region(Rect::new(31, 10, 40, 20), panel),
        Rect::new(0, 10, 96, 20)
    );
    assert_eq!(
        constraints.align_region(Rect::new(1440, 10, 8, 20), panel),
        Rect::new(1440, 10, 0, 20)
    );
}

#[test]
fn asset_ids_are_stable_strings() {
    let id = AssetId::new("weather/icon/sun");
    assert_eq!(id.as_str(), "weather/icon/sun");
}

#[test]
fn font_family_preserves_human_readable_name() {
    assert_eq!(FontFamily::new("Inter").as_str(), "Inter");
}

#[test]
fn intersection_is_symmetric_and_points_lie_in_both() {
    let a = Rect::new(2, 3, 10, 4);
    let b = Rect::new(5, 1, 3, 20);
    let both = a.intersection(b);
    assert_eq!(both, b.intersection(a));
    let both = both.unwrap();
    assert_eq!(both, Rect::new(5, 3, 3, 4));
    for x in 0..20 {
        for y in 0..30 {
            let p = Point::new(x, y);
            assert_eq!(both.contains(p), a.contains(p) && b.contains(p));
        }
    }
}

#[test]
fn union_covers_both_and_skips_empty_sides() {
    let a = Rect::new(2, 3, 4, 4);
    let b = Rect::new(10, 1, 2, 2);
    assert_eq!(a.union(b), Rect::new(2, 1, 10, 6));
    assert_eq!(a.union(Rect::new(50, 50, 0, 3)), a);
    assert_eq!(Rect::new(50, 50, 3, 0).union(b), b);
    for p in [Point::new(2, 3), Point::new(5, 6), Point::new(10, 1), Point::new(11, 2)] {
        assert!(a.union(b).contains(p));
    }
}

#[test]
fn edges_saturate_instead_of_wrapping() {
    let r = Rect::new(u32::MAX - 1, 7, 5, u32::MAX);
    assert_eq!(r.right(), u32::MAX);
    assert_eq!(r.bottom(), u32::MAX);
    assert!(r.contains(Point::new(u32::MAX - 1, 8)));
    assert!(!r.contains(Point::new(u32::MAX, 8)));
}

#[test]
fn sizes_report_emptiness_and_pixel_counts() {
    assert!(Size::new(0, 5).is_empty());
    assert!(Size::new(5, 0).is_empty());
    assert!(!Size::new(1, 1).is_empty());
    assert_eq!(Size::new(1448, 1072).pixel_count(), Some(1_552_256));
}

#[test]
fn packed_row_lengths_round_up_to_whole_bytes() {
    assert_eq!(PixelFormat::Monochrome1.row_bytes(9), Some(2));
    assert_eq!(PixelFormat::Gray2.row_bytes(5), Some(2));
    assert_eq!(PixelFormat::Gray4.row_bytes(3), Some(2));
    assert_eq!(PixelFormat::Gray8.row_bytes(1448), Some(1448));
    assert_eq!(PixelFormat::Gray4.bits_per_pixel(), 4);
}

#[test]
fn alignment_keeps_aligned_regions_and_refuses_zero_alignment() {
    let panel = Size::new(64, 32);
    assert!(UpdateConstraints::new(0, 0, 0, 0).is_none());
    assert!(UpdateConstraints::new(0, 1, 1, 1).is_none());
    assert!(UpdateConstraints::new(1, 1, 1, 0).is_none());
    let region = Rect::new(3, 5, 7, 9);
    assert_eq!(UpdateConstraints::unrestricted().align_region(region, panel), region);
    let c = UpdateConstraints::new(8, 4, 8, 4).unwrap();
    assert_eq!(c.align_region(Rect::new(8, 4, 16, 8), panel), Rect::new(8, 4, 16, 8));
    assert_eq!(c.align_region(Rect::new(9, 5, 1, 1), panel), Rect::new(8, 4, 8, 4));
}

#[test]
fn capabilities_find_the_first_matching_profile() {
    let fast = UpdateProfile::new(
        PixelFormat::Monochrome1,
        Waveform::FastMonochrome,
        true,
        UpdateConstraints::new(32, 1, 32, 1).unwrap(),
    );
    let quality = UpdateProfile::new(
        PixelFormat::Gray8,
        Waveform::Grayscale,
        false,
        UpdateConstraints::unrestricted(),
    );
    let caps = DisplayCapabilities { native_size: Size::new(64, 32), update_profiles: vec![fast, quality] };
    assert_eq!(caps.profile(PixelFormat::Gray8, Waveform::Grayscale), Some(quality));
    assert_eq!(caps.profile(PixelFormat::Gray8, Waveform::FastMonochrome), None);
    assert!(caps.supports_format(PixelFormat::Monochrome1));
    assert!(!caps.supports_format(PixelFormat::Gray4));
    assert!(caps.supports_waveform(Waveform::Grayscale));
    assert!(!caps.supports_waveform(Waveform::Initialize));
}

#[test]
fn image_metadata_keeps_its_identity() {
    let meta = ImageMetadata {
        id: AssetId::new("weather/icon/sun"),
        size: Size::new(48, 48),
        format: ImageFormat::Png,
    };
    assert_eq!(meta.id.as_str(), "weather/icon/sun");
    assert_eq!(meta.format, ImageFormat::Png);
}

#[test]
fn validated_constraints_report_their_alignments() {
    let c = UpdateConstraints::new(32, 1, 16, 2).unwrap();
    assert_eq!((c.x_alignment(), c.y_alignment(), c.width_alignment(), c.height_alignment()), (32, 1, 16, 2));
}
