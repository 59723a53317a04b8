use paperos::display::{Point, Rect, Size};
use paperos::graphics::{Framebuffer, GraphicsError, Gray8, Rotation};

#[test]
fn clips_filled_rectangles() {
    let mut frame = Framebuffer::new(Size::new(4, 3), Gray8::white()).unwrap();
    frame.fill_rect(Rect::new(2, 1, 8, 8), Gray8::black());

    assert_eq!(frame.get(Point::new(1, 1)), Some(Gray8::white()));
    assert_eq!(frame.get(Point::new(2, 1)), Some(Gray8::black()));
    assert_eq!(frame.get(Point::new(3, 2)), Some(Gray8::black()));
}

#[test]
fn coverage_blends_ink_over_existing_gray() {
    let mut frame = Framebuffer::new(Size::new(2, 1), Gray8::white()).unwrap();
    frame.blend_rect(Rect::new(0, 0, 1, 1), Gray8::black(), 128);
    frame.blend_rect(Rect::new(1, 0, 1, 1), Gray8(64), 255);

    assert_eq!(frame.pixels(), &[127, 64]);
}

#[test]
fn right_angle_rotation_preserves_exact_pixel_order() {
    let frame = Framebuffer::from_pixels(Size::new(2, 3), vec![1, 2, 3, 4, 5, 6]).unwrap();

    let clockwise = frame.rotated(Rotation::Clockwise90);
    assert_eq!(clockwise.size(), Size::new(3, 2));
    assert_eq!(clockwise.pixels(), &[5, 3, 1, 6, 4, 2]);

    let half_turn = frame.rotated(Rotation::Clockwise180);
    assert_eq!(half_turn.size(), Size::new(2, 3));
    assert_eq!(half_turn.pixels(), &[6, 5, 4, 3, 2, 1]);

    let counter_clockwise = frame.rotated(Rotation::Clockwise270);
    assert_eq!(counter_clockwise.size(), Size::new(3, 2));
    assert_eq!(counter_clockwise.pixels(), &[2, 4, 6, 1, 3, 5]);
}

#[test]
fn arbitrary_drawing_never_changes_buffer_length() {
    let cases: [(u32, u32, u32, u32, u8); 6] = [
        (0, 0, 0, 0, 0),
        (99, 99, 99, 99, 255),
        (31, 23, 1, 1, 7),
        (10, 5, 50, 50, 128),
        (0, 0, 32, 24, 1),
        (40, 0, 5, 5, 9),
    ];
    for (x, y, width, height, gray) in cases {
        let mut frame = Framebuffer::new(Size::new(32, 24), Gray8::white()).unwrap();
        let len = frame.pixels().len();
        frame.fill_rect(Rect::new(x, y, width, height), Gray8(gray));
        assert_eq!(frame.pixels().len(), len);
    }
}

#[test]
fn construction_rejects_empty_sizes_and_wrong_lengths() {
    assert_eq!(
        Framebuffer::new(Size::new(0, 3), Gray8::white()),
        Err(GraphicsError::InvalidSize(Size::new(0, 3)))
    );
    assert_eq!(
        Framebuffer::from_pixels(Size::new(2, 2), vec![0; 3]),
        Err(GraphicsError::BufferLength { expected: 4, actual: 3 })
    );
    let frame = Framebuffer::from_pixels(Size::new(2, 2), vec![9; 4]).unwrap();
    assert_eq!(frame.stride_bytes(), 2);
}

#[test]
fn quarter_turns_compose_back_to_the_original() {
    let frame = Framebuffer::from_pixels(Size::new(3, 2), vec![1, 2, 3, 4, 5, 6]).unwrap();
    let back = frame.rotated(Rotation::Clockwise90).rotated(Rotation::Clockwise270);
    assert_eq!(back, frame);
    let back = frame.rotated(Rotation::Clockwise180).rotated(Rotation::Clockwise180);
    assert_eq!(back, frame);
    assert_eq!(frame.rotated(Rotation::Upright), frame);
    assert_eq!(Rotation::Clockwise270.output_size(Size::new(3, 2)), Size::new(2, 3));
}

#[test]
fn strokes_draw_inward_bands_clipped_to_the_frame() {
    let mut frame = Framebuffer::new(Size::new(5, 5), Gray8::white()).unwrap();
    frame.stroke_rect(Rect::new(0, 0, 5, 5), 1, Gray8::black());
    for i in 0..5 {
        assert_eq!(frame.get(Point::new(i, 0)), Some(Gray8::black()));
        assert_eq!(frame.get(Point::new(0, i)), Some(Gray8::black()));
        assert_eq!(frame.get(Point::new(4, i)), Some(Gray8::black()));
        assert_eq!(frame.get(Point::new(i, 4)), Some(Gray8::black()));
    }
    assert_eq!(frame.get(Point::new(2, 2)), Some(Gray8::white()));
    frame.stroke_rect(Rect::new(1, 1, 3, 3), 9, Gray8(7));
    assert_eq!(frame.get(Point::new(2, 2)), Some(Gray8(7)));
}

#[test]
fn pixel_access_outside_the_frame_is_refused() {
    let mut frame = Framebuffer::new(Size::new(2, 2), Gray8(3)).unwrap();
    assert!(!frame.set(Point::new(2, 0), Gray8::black()));
    assert_eq!(frame.get(Point::new(0, 2)), None);
    assert!(frame.set(Point::new(1, 1), Gray8(200)));
    assert_eq!(frame.pixels(), &[3, 3, 3, 200]);
    frame.clear(Gray8(9));
    assert_eq!(frame.pixels(), &[9, 9, 9, 9]);
    frame.blend_rect(Rect::new(0, 0, 2, 2), Gray8::black(), 0);
    assert_eq!(frame.pixels(), &[9, 9, 9, 9]);
}

#[test]
fn graphics_errors_describe_sizes_and_lengths() {
    assert_eq!(
        GraphicsError::InvalidSize(Size::new(0, 3)).message(),
        "framebuffer size 0×3 is empty or overflows address space"
    );
    assert_eq!(
        GraphicsError::BufferLength { expected: 12, actual: 11 }.message(),
        "expected 12 pixels, received 11"
    );
}
