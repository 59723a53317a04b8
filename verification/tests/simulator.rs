use paperos::daily::{display_size, render_placeholder};
use paperos::display::{Display, PixelFormat, Point, Rect, Size, UpdateRequest, Waveform};
use paperos::graphics::{Framebuffer, Gray8};
use paperos::simulator::{pgm_image, SimulatorDisplay, SimulatorError};

#[test]
fn partial_update_changes_only_requested_region() {
    let mut display = SimulatorDisplay::new(Size::new(4, 3)).unwrap();
    display
        .update(UpdateRequest {
            region: Rect::new(1, 1, 2, 1),
            pixel_format: PixelFormat::Gray8,
            stride_bytes: 2,
            pixels: &[0, 127],
            waveform: Waveform::Grayscale,
        })
        .unwrap();

    assert_eq!(
        display.frame().pixels(),
        &[255, 255, 255, 255, 255, 0, 127, 255, 255, 255, 255, 255]
    );
}

#[test]
fn invalid_requests_do_not_change_frame_or_history() {
    let mut display = SimulatorDisplay::new(Size::new(4, 3)).unwrap();
    let original = display.frame().clone();
    let result = display.update(UpdateRequest {
        region: Rect::new(3, 2, 2, 1),
        pixel_format: PixelFormat::Gray8,
        stride_bytes: 2,
        pixels: &[0, 0],
        waveform: Waveform::Grayscale,
    });

    assert!(matches!(result, Err(SimulatorError::InvalidRegion)));
    assert_eq!(display.frame(), &original);
    assert!(display.updates().is_empty());
}

#[test]
fn sleeping_display_rejects_updates_until_woken() {
    let mut display = SimulatorDisplay::new(Size::new(2, 1)).unwrap();
    display.sleep().unwrap();
    assert!(display.is_sleeping());

    let request = UpdateRequest {
        region: Rect::new(0, 0, 2, 1),
        pixel_format: PixelFormat::Gray8,
        stride_bytes: 2,
        pixels: &[0, 0],
        waveform: Waveform::Grayscale,
    };
    assert!(matches!(display.update(request), Err(SimulatorError::Sleeping)));

    display.wake().unwrap();
    display.update(request).unwrap();
    assert_eq!(display.updates().len(), 1);
}

#[test]
fn unsupported_format_and_waveform_are_rejected() {
    let mut display = SimulatorDisplay::new(Size::new(2, 1)).unwrap();
    let unsupported_format = display.update(UpdateRequest {
        region: Rect::new(0, 0, 2, 1),
        pixel_format: PixelFormat::Monochrome1,
        stride_bytes: 1,
        pixels: &[0],
        waveform: Waveform::FastMonochrome,
    });
    assert!(matches!(
        unsupported_format,
        Err(SimulatorError::UnsupportedPixelFormat(PixelFormat::Monochrome1))
    ));

    let unsupported_waveform = display.update(UpdateRequest {
        region: Rect::new(0, 0, 2, 1),
        pixel_format: PixelFormat::Gray8,
        stride_bytes: 2,
        pixels: &[0, 0],
        waveform: Waveform::ControllerSpecific(99),
    });
    assert!(matches!(
        unsupported_waveform,
        Err(SimulatorError::UnsupportedWaveform(Waveform::ControllerSpecific(99)))
    ));
}

#[test]
fn short_rows_are_rejected() {
    let mut display = SimulatorDisplay::new(Size::new(2, 2)).unwrap();
    let result = display.update(UpdateRequest {
        region: Rect::new(0, 0, 2, 2),
        pixel_format: PixelFormat::Gray8,
        stride_bytes: 2,
        pixels: &[0, 0],
        waveform: Waveform::Grayscale,
    });
    assert!(matches!(result, Err(SimulatorError::BufferTooShort)));
}

#[test]
fn placeholder_is_deterministic_and_panel_sized() {
    let frame = render_placeholder().unwrap();
    assert_eq!(frame.size(), Size::new(1448, 1072));
    assert_eq!(frame.get(Point::new(64, 64)), Some(Gray8::black()));
    assert_eq!(frame.get(Point::new(0, 0)), Some(Gray8::white()));
    assert_eq!(display_size(), frame.size());
}

#[test]
fn placeholder_paints_bars_and_frames() {
    let frame = render_placeholder().unwrap();
    assert_eq!(frame, render_placeholder().unwrap());
    assert_eq!(frame.get(Point::new(100, 170)), Some(Gray8(48)));
    assert_eq!(frame.get(Point::new(100, 230)), Some(Gray8(150)));
    assert_eq!(frame.get(Point::new(736, 500)), Some(Gray8::black()));
    assert_eq!(frame.get(Point::new(1000, 500)), Some(Gray8::white()));
    assert_eq!(frame.get(Point::new(64, 123)), Some(Gray8::black()));
}

#[test]
fn a_new_display_is_white_awake_and_without_history() {
    let display = SimulatorDisplay::new(Size::new(3, 2)).unwrap();
    assert!(!display.is_sleeping());
    assert!(display.updates().is_empty());
    assert_eq!(display.frame().pixels(), &[255; 6]);
    assert_eq!(display.capabilities().native_size, Size::new(3, 2));
    assert!(display.capabilities().supports_format(PixelFormat::Gray8));
    assert!(display.capabilities().supports_waveform(Waveform::FastMonochrome));
    assert!(matches!(
        SimulatorDisplay::new(Size::new(0, 2)),
        Err(SimulatorError::Graphics(_))
    ));
}

#[test]
fn strided_updates_copy_each_row_and_record_history() {
    let mut display = SimulatorDisplay::new(Size::new(3, 3)).unwrap();
    display
        .update(UpdateRequest {
            region: Rect::new(1, 1, 2, 2),
            pixel_format: PixelFormat::Gray8,
            stride_bytes: 3,
            pixels: &[1, 2, 99, 3, 4, 99],
            waveform: Waveform::FastMonochrome,
        })
        .unwrap();
    assert_eq!(display.frame().pixels(), &[255, 255, 255, 255, 1, 2, 255, 3, 4]);
    assert_eq!(display.updates(), &[(Rect::new(1, 1, 2, 2), Waveform::FastMonochrome)]);
}

#[test]
fn pgm_image_has_header_and_raw_pixels() {
    let frame = Framebuffer::from_pixels(Size::new(12, 1), vec![7; 12]).unwrap();
    let image = pgm_image(&frame);
    let mut expected = b"P5\n12 1\n255\n".to_vec();
    expected.extend_from_slice(&[7; 12]);
    assert_eq!(image, expected);
}

#[test]
fn simulator_errors_name_the_rejected_format_and_waveform() {
    assert_eq!(
        SimulatorError::UnsupportedPixelFormat(PixelFormat::Gray4).message(),
        "simulator does not support Gray4"
    );
    assert_eq!(
        SimulatorError::UnsupportedWaveform(Waveform::ControllerSpecific(99)).message(),
        "simulator does not support ControllerSpecific(99)"
    );
    assert_eq!(SimulatorError::Sleeping.message(), "simulator display is sleeping");
    assert_eq!(
        SimulatorError::Graphics(paperos::graphics::GraphicsError::BufferLength { expected: 4, actual: 2 })
            .message(),
        "expected 4 pixels, received 2"
    );
    let io = SimulatorError::Io(std::io::Error::other("disk full")).message();
    assert_eq!(io, "disk full");
}

#[test]
fn graphics_and_io_failures_convert_into_simulator_errors() {
    let error = SimulatorError::from(paperos::graphics::GraphicsError::InvalidSize(Size::new(0, 1)));
    assert!(matches!(
        error,
        SimulatorError::Graphics(paperos::graphics::GraphicsError::InvalidSize(size)) if size == Size::new(0, 1)
    ));
    assert!(matches!(SimulatorError::from(std::io::Error::other("x")), SimulatorError::Io(_)));
}
