use paperos::display::{Rect, Size};
use paperos::layout::{
    linear_layout, Axis, Constraints, CrossAlignment, Insets, LayoutError, LinearItem, LogicalSize,
    ScaleFactor,
};

#[test]
fn invalid_constraints_are_rejected_instead_of_panicking() {
    assert_eq!(
        Constraints::new(Size::new(20, 10), Size::new(10, 10)),
        Err(LayoutError::InvalidConstraints { min: Size::new(20, 10), max: Size::new(10, 10) })
    );
}

#[test]
fn scale_factor_resolves_design_units_deterministically() {
    let scale = ScaleFactor::new(3, 2).unwrap();
    assert_eq!(scale.resolve(1), 2);
    assert_eq!(scale.resolve_size(LogicalSize::new(20, 10)), Size::new(30, 15));
}

#[test]
fn column_distributes_every_extra_pixel_to_growing_items() {
    let items = [
        LinearItem { natural_size: Size::new(20, 10), grow: 0 },
        LinearItem { natural_size: Size::new(30, 10), grow: 1 },
        LinearItem { natural_size: Size::new(30, 10), grow: 1 },
    ];
    let mut output = [Rect::default(); 3];

    linear_layout(Axis::Vertical, Rect::new(0, 0, 100, 52), 5, CrossAlignment::Center, &items, &mut output);

    assert_eq!(output[0], Rect::new(40, 0, 20, 10));
    assert_eq!(output[1], Rect::new(35, 15, 30, 16));
    assert_eq!(output[2], Rect::new(35, 36, 30, 16));
    assert_eq!(output[2].bottom(), 52);
}

#[test]
fn overflowing_items_shrink_inside_bounds() {
    let items = [
        LinearItem { natural_size: Size::new(8, 5), grow: 0 },
        LinearItem { natural_size: Size::new(8, 5), grow: 0 },
    ];
    let mut output = [Rect::default(); 2];

    linear_layout(Axis::Horizontal, Rect::new(10, 0, 10, 5), 2, CrossAlignment::Stretch, &items, &mut output);

    assert_eq!(output, [Rect::new(10, 0, 4, 5), Rect::new(16, 0, 4, 5)]);
    assert_eq!(output[1].right(), 20);
}

#[test]
fn linear_layout_never_exceeds_main_axis() {
    let cases: [(u32, u32, u32, u32, u16, u16); 8] = [
        (0, 0, 0, 0, 0, 0),
        (499, 99, 499, 499, u16::MAX, u16::MAX),
        (10, 50, 3, 4, 1, 0),
        (100, 0, 20, 30, 0, 7),
        (7, 3, 499, 1, 2, 2),
        (250, 99, 0, 0, 1, 1),
        (1, 0, 1, 1, 0, 0),
        (300, 10, 100, 100, 3, 1),
    ];
    for (width, gap, first, second, first_grow, second_grow) in cases {
        let items = [
            LinearItem { natural_size: Size::new(first, 10), grow: first_grow },
            LinearItem { natural_size: Size::new(second, 10), grow: second_grow },
        ];
        let mut output = [Rect::default(); 2];
        let bounds = Rect::new(0, 0, width, 10);
        linear_layout(Axis::Horizontal, bounds, gap, CrossAlignment::Start, &items, &mut output);

        assert!(output[0].right() <= bounds.right());
        assert!(output[1].right() <= bounds.right());
        assert!(output[0].right() <= output[1].origin.x);
    }
}

#[test]
fn layout_fills_bounds_when_an_item_grows() {
    let items = [
        LinearItem { natural_size: Size::new(10, 4), grow: 2 },
        LinearItem { natural_size: Size::new(10, 4), grow: 1 },
    ];
    let mut output = [Rect::default(); 2];
    let count = linear_layout(Axis::Horizontal, Rect::new(0, 0, 53, 4), 3, CrossAlignment::End, &items, &mut output);
    assert_eq!(count, 2);
    assert_eq!(output[1].right(), 53);
    assert_eq!(output[0].size.width + output[1].size.width + 3, 53);
}

#[test]
fn layout_writes_only_as_many_items_as_fit_the_output() {
    let items = [LinearItem { natural_size: Size::new(5, 5), grow: 0 }; 3];
    let sentinel = Rect::new(9, 9, 9, 9);
    let mut output = [sentinel; 2];
    assert_eq!(linear_layout(Axis::Vertical, Rect::new(0, 0, 5, 40), 0, CrossAlignment::Start, &items, &mut output), 2);
    let mut empty: [Rect; 0] = [];
    assert_eq!(linear_layout(Axis::Vertical, Rect::new(0, 0, 5, 40), 0, CrossAlignment::Start, &items, &mut empty), 0);
    let mut output = [sentinel; 4];
    assert_eq!(linear_layout(Axis::Vertical, Rect::new(0, 0, 5, 40), 0, CrossAlignment::Start, &items, &mut output), 3);
    assert_eq!(output[3], sentinel);
}

#[test]
fn constraints_clamp_sizes_and_insets_saturate() {
    let c = Constraints::new(Size::new(2, 3), Size::new(10, 10)).unwrap();
    assert_eq!(c.constrain(Size::new(1, 50)), Size::new(2, 10));
    assert_eq!(c.min(), Size::new(2, 3));
    assert_eq!(c.max(), Size::new(10, 10));
    assert_eq!(Constraints::tight(Size::new(4, 4)).constrain(Size::new(9, 0)), Size::new(4, 4));
    assert_eq!(Constraints::loose(Size::new(4, 4)).constrain(Size::new(9, 0)), Size::new(4, 0));
    let insets = Insets { top: 1, right: u32::MAX, bottom: 2, left: 3 };
    assert_eq!(insets.horizontal(), u32::MAX);
    assert_eq!(insets.vertical(), 3);
    assert_eq!(Insets::all(4).horizontal(), 8);
}

#[test]
fn scale_factor_rejects_zero_and_rounds_to_nearest() {
    assert_eq!(ScaleFactor::new(0, 1), None);
    assert_eq!(ScaleFactor::new(1, 0), None);
    let one = ScaleFactor::one();
    assert_eq!(one.resolve(17), 17);
    let third = ScaleFactor::new(1, 3).unwrap();
    assert_eq!(third.numerator(), 1);
    assert_eq!(third.denominator(), 3);
    assert_eq!(third.resolve(2), 1);
    assert_eq!(third.resolve(1), 0);
}
