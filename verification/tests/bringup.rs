use std::path::PathBuf;

use paperos::bringup::{
    admit_command, calibration_page, rotate_to_panel, finish_cleanup, finish_presentation, finish_with_sleep, hold_step,
    probe_session, refresh_step,
    require_hardware_opt_in, require_pinned_identity, require_refresh_opt_in, require_vcom_authorization,
    set_gray4, set_vcom_session, should_apply_profile_vcom, validate_full_page, validate_hold_seconds,
    verify_probe_identity, version_bytes, version_string, Admission, BringupError, CommandRequest, ObservedPage,
    SessionError, MAX_HOLD_SECONDS,
};
use paperos::display::{PixelFormat, Point, Size, Waveform};
use paperos::graphics::{Framebuffer, Gray8};
use paperos::it8951::{
    Controller, DeviceInfo, DisplayWait, Error, It8951Display, ProbeReport, Transport, UpdateError, VcomMillivolts,
    COMMAND_DISPLAY_BUFFER_AREA, COMMAND_LOAD_IMAGE_AREA, COMMAND_SLEEP,
};
use paperos::linux::{PanelProfile, Timing};

/// Records commands; reads answer zero (an idle display engine); the sleep
/// command fails when `failing_sleep` is set.
#[derive(Default)]
struct Recorder {
    commands: Vec<u16>,
    failing_sleep: bool,
}

impl Transport for Recorder {
    type Error = &'static str;

    fn reset(&mut self) -> Result<(), Self::Error> {
        Ok(())
    }

    fn command(&mut self, command: u16) -> Result<(), Self::Error> {
        self.commands.push(command);
        if command == COMMAND_SLEEP && self.failing_sleep {
            return Err("sleep failed");
        }
        Ok(())
    }

    fn write_words(&mut self, _words: &[u16]) -> Result<(), Self::Error> {
        Ok(())
    }

    fn read_words(&mut self, words: &mut [u16]) -> Result<(), Self::Error> {
        words.fill(0);
        Ok(())
    }

    fn delay_ms(&mut self, _milliseconds: u32) {}

    fn begin_operation(&mut self, _timeout_ms: u32) {}

    fn operation_timed_out(&self) -> bool {
        false
    }

    fn end_operation(&mut self) {}
}

fn small_display(failing_sleep: bool) -> It8951Display<Recorder> {
    let report = ProbeReport {
        device_info: DeviceInfo {
            panel_size: Size::new(8, 2),
            image_buffer_address: 0x0012_0000,
            firmware_version: version(b"FW6"),
            lut_version: version(b"M641"),
        },
        current_vcom: VcomMillivolts::new(1_500).unwrap(),
    };
    let transport = Recorder { failing_sleep, ..Recorder::default() };
    It8951Display::new(Controller::new(transport), report, DisplayWait::new(10, 1).unwrap())
}

fn commands(display: It8951Display<Recorder>) -> Vec<u16> {
    display.into_controller().into_transport().commands
}

fn version(value: &[u8]) -> [u8; 16] {
    let mut version = [0; 16];
    version[..value.len()].copy_from_slice(value);
    version
}

fn profile(expected_firmware: Option<&str>, expected_lut: Option<&str>) -> PanelProfile {
    PanelProfile {
        name: "desk".to_owned(),
        panel_size: Size::new(1448, 1072),
        rotation_degrees: 0,
        vcom: VcomMillivolts::new(1_500).unwrap(),
        expected_firmware: expected_firmware.map(str::to_owned),
        expected_lut: expected_lut.map(str::to_owned),
        spi_device: PathBuf::from("/dev/spidev0.0"),
        gpio_chip: PathBuf::from("/dev/gpiochip0"),
        cs_line: 8,
        reset_line: 17,
        ready_line: 24,
        max_spi_hz: 1_000_000,
        timing: Timing {
            ready_timeout: 1_000_000_000,
            ready_poll_interval: 100_000,
            reset_high: 200_000_000,
            reset_low: 10_000_000,
            reset_recovery: 200_000_000,
        },
        display_wait: DisplayWait::new(30_000, 50).unwrap(),
    }
}

fn probe_report() -> ProbeReport {
    ProbeReport {
        device_info: DeviceInfo {
            panel_size: Size::new(1448, 1072),
            image_buffer_address: 0x0012_0000,
            firmware_version: version(b"FW6"),
            lut_version: version(b"M641"),
        },
        current_vcom: VcomMillivolts::new(1_500).unwrap(),
    }
}

#[test]
fn gray4_packing_places_left_pixel_in_high_nibble() {
    let mut pixels = [0xff];
    set_gray4(&mut pixels, 1, 0, 0, 2);
    set_gray4(&mut pixels, 1, 1, 0, 13);
    assert_eq!(pixels, [0x2d]);
}

#[test]
fn calibration_page_has_border_and_tonal_range() {
    let size = Size::new(16, 8);
    let page = calibration_page(size).unwrap();
    let stride = PixelFormat::Gray4.row_bytes(size.width).unwrap();

    assert_eq!(page.len(), stride * size.height as usize);
    assert_eq!(page[0] >> 4, 0);
    assert_eq!(page[(size.height as usize - 1) * stride] >> 4, 0);
    assert_ne!(page[3 * stride + 1], page[3 * stride + stride - 2]);
    assert_eq!(&page[stride..stride + 3], &[0x05, 0xaf, 0x05]);
    assert_eq!(page[3 * stride] >> 4, 0);
    assert_eq!(page[3 * stride + stride - 1] & 0x0f, 0);
}

#[test]
fn full_page_validation_rejects_stride_and_length_mismatches() {
    let size = Size::new(4, 2);
    let page = [0xff; 8];

    assert_eq!(validate_full_page(size, PixelFormat::Gray8, 4, &page).unwrap(), 8);
    assert!(validate_full_page(size, PixelFormat::Gray8, 3, &page).is_err());
    assert!(validate_full_page(size, PixelFormat::Gray8, 4, &page[..7]).is_err());
}

#[test]
fn refresh_requires_and_verifies_pinned_controller_identity() {
    let report = probe_report();
    let unpinned = profile(None, None);
    assert!(require_pinned_identity(&unpinned).is_err());
    assert!(should_apply_profile_vcom(&unpinned, &report).is_err());

    let pinned = profile(Some("FW6"), Some("M641"));
    assert!(verify_probe_identity(&pinned, &report).is_ok());

    let wrong_lut = profile(Some("FW6"), Some("M841"));
    let error = verify_probe_identity(&wrong_lut, &report).unwrap_err();
    assert!(error.message().contains("probed LUT"));
    assert_eq!(version_string(&report.device_info.lut_version), "M641");
}

#[test]
fn profile_vcom_is_applied_only_after_identity_is_verified() {
    let pinned = profile(Some("FW6"), Some("M641"));
    let mut report = probe_report();
    report.current_vcom = VcomMillivolts::new(2_800).unwrap();

    assert!(verify_probe_identity(&pinned, &report).is_ok());
    assert!(should_apply_profile_vcom(&pinned, &report).unwrap());

    report.current_vcom = pinned.vcom;
    assert!(!should_apply_profile_vcom(&pinned, &report).unwrap());

    report.device_info.lut_version = version(b"M841");
    assert!(verify_probe_identity(&pinned, &report).is_err());
    assert!(should_apply_profile_vcom(&pinned, &report).is_err());
}

#[test]
fn calibration_hold_is_bounded_and_interruptible() {
    assert!(validate_hold_seconds(MAX_HOLD_SECONDS).is_ok());
    assert!(validate_hold_seconds(MAX_HOLD_SECONDS + 1).is_err());

    assert!(matches!(hold_step(true, 1_000_000_000), Err(BringupError::HoldInterrupted)));
    assert!(matches!(hold_step(false, 0), Ok(None)));
    assert!(matches!(hold_step(false, 1_000_000_000), Ok(Some(100_000_000))));
    assert!(matches!(hold_step(false, 5), Ok(Some(5))));
}

#[test]
fn physical_steps_require_separate_explicit_opt_ins() {
    let error = require_hardware_opt_in(false).unwrap_err();
    assert!(error.message().contains("--allow-hardware"));
    let error = require_vcom_authorization(false).unwrap_err();
    assert!(error.message().contains("--allow-vcom-write"));
    let error = require_refresh_opt_in(ObservedPage::Calibration, false).unwrap_err();
    assert!(error.message().contains("--allow-refresh"));
    assert!(require_hardware_opt_in(true).is_ok());
    assert!(require_vcom_authorization(true).is_ok());
    assert!(require_refresh_opt_in(ObservedPage::Calibration, true).is_ok());
}

#[test]
fn identity_messages_name_the_mismatch() {
    let report = probe_report();
    let wrong_size = PanelProfile { panel_size: Size::new(800, 600), ..profile(Some("FW6"), Some("M641")) };
    let error = verify_probe_identity(&wrong_size, &report).unwrap_err();
    assert_eq!(error.message(), "probed panel is 1448×1072, but profile expects 800×600");

    let wrong_firmware = profile(Some("FW7"), Some("M641"));
    let error = verify_probe_identity(&wrong_firmware, &report).unwrap_err();
    assert_eq!(
        error.message(),
        "probed firmware is \"FW6\", but profile expects \"FW7\"; refusing to refresh"
    );
    assert_eq!(
        validate_hold_seconds(121).unwrap_err().message(),
        "--hold-seconds must be at most 120"
    );
    assert_eq!(
        validate_full_page(Size::new(4, 2), PixelFormat::Gray8, 4, &[0; 7]).unwrap_err().message(),
        "page contains 7 bytes, expected 8"
    );
}

#[test]
fn version_fields_stop_at_the_first_nul() {
    assert_eq!(version_bytes(&version(b"M641")), b"M641".to_vec());
    assert_eq!(version_bytes(&[b'A'; 16]).len(), 16);
    assert!(version_bytes(&[0; 16]).is_empty());
    assert_eq!(version_string(&version(b"FW6")), "FW6");
}

#[test]
fn calibration_rejects_odd_rows_and_empty_panels() {
    assert!(matches!(calibration_page(Size::new(5, 8)), Err(BringupError::CalibrationGeometry)));
    assert!(matches!(calibration_page(Size::new(0, 8)), Err(BringupError::CalibrationGeometry)));
    let page = calibration_page(Size::new(3, 3)).unwrap();
    assert_eq!(page, vec![0x00, 0x0f, 0x05, 0x0f, 0x00, 0x0f]);
}

#[test]
fn gray4_levels_above_fifteen_are_capped() {
    let mut pixels = [0x00, 0x00];
    set_gray4(&mut pixels, 1, 1, 1, 200);
    assert_eq!(pixels, [0x00, 0x0f]);
}

#[test]
fn interruptions_explain_the_controller_state() {
    assert_eq!(
        paperos::bringup::interruption_error().message(),
        "hardware operation interrupted; controller sleep was requested"
    );
    assert_eq!(
        BringupError::HoldInterrupted.message(),
        "calibration interrupted; controller is asleep and the calibration page remains visible"
    );
}

#[test]
fn physical_commands_require_separate_explicit_opt_ins() {
    let error = admit_command(CommandRequest::Probe { allow_hardware: false }).unwrap_err();
    assert!(error.message().contains("--allow-hardware"));

    let error =
        admit_command(CommandRequest::SetVcom { allow_hardware: true, allow_vcom_write: false }).unwrap_err();
    assert!(error.message().contains("--allow-vcom-write"));

    let error = admit_command(CommandRequest::Refresh {
        page: ObservedPage::Calibration,
        allow_hardware: true,
        allow_vcom_write: true,
        allow_refresh: false,
        hold_seconds: 0,
    })
    .unwrap_err();
    assert!(error.message().contains("--allow-refresh"));

    let error = admit_command(CommandRequest::Refresh {
        page: ObservedPage::Specimen,
        allow_hardware: true,
        allow_vcom_write: true,
        allow_refresh: false,
        hold_seconds: 0,
    })
    .unwrap_err();
    assert!(error.message().contains("--allow-refresh"));
}

#[test]
fn admission_checks_opt_ins_in_order_and_names_the_page() {
    assert_eq!(admit_command(CommandRequest::SelfTest).unwrap(), Admission::NoDevices);
    assert_eq!(
        admit_command(CommandRequest::Probe { allow_hardware: true }).unwrap(),
        Admission::Hardware { pinned_identity: false }
    );
    assert_eq!(
        admit_command(CommandRequest::SetVcom { allow_hardware: true, allow_vcom_write: true }).unwrap(),
        Admission::Hardware { pinned_identity: true }
    );
    let refresh = |allow_hardware, allow_vcom_write, allow_refresh, hold_seconds| CommandRequest::Refresh {
        page: ObservedPage::Specimen,
        allow_hardware,
        allow_vcom_write,
        allow_refresh,
        hold_seconds,
    };
    assert!(matches!(admit_command(refresh(false, false, false, 500)), Err(BringupError::HardwareNotAllowed)));
    assert_eq!(
        admit_command(refresh(true, false, false, 500)).unwrap_err().message(),
        "specimen requires the explicit --allow-refresh flag"
    );
    assert!(matches!(admit_command(refresh(true, false, true, 500)), Err(BringupError::VcomWriteNotAllowed)));
    assert!(matches!(admit_command(refresh(true, true, true, 121)), Err(BringupError::HoldTooLong)));
    assert_eq!(
        admit_command(refresh(true, true, true, 120)).unwrap(),
        Admission::Hardware { pinned_identity: true }
    );
}

#[test]
fn probe_session_reports_interruptions_mismatches_and_vcom_drift() {
    let report = probe_report();
    let pinned = profile(Some("FW6"), Some("M641"));
    assert!(matches!(probe_session(&pinned, &report, true), Err(BringupError::OperationInterrupted)));
    assert_eq!(probe_session(&pinned, &report, false).unwrap(), false);
    let drifted = PanelProfile { vcom: VcomMillivolts::new(1_400).unwrap(), ..profile(Some("FW6"), Some("M641")) };
    assert_eq!(probe_session(&drifted, &report, false).unwrap(), true);
    let wrong_size = PanelProfile { panel_size: Size::new(800, 600), ..profile(None, None) };
    assert!(matches!(probe_session(&wrong_size, &report, false), Err(BringupError::PanelMismatch { .. })));
}

#[test]
fn interrupted_vcom_session_sends_nothing() {
    let mut controller = Controller::new(Recorder::default());
    let step = set_vcom_session(&mut controller, &profile(Some("FW6"), Some("M641")), probe_report(), true);
    assert!(matches!(step, Err(SessionError::Refused(BringupError::OperationInterrupted))));
    assert!(controller.into_transport().commands.is_empty());
}

#[test]
fn finishing_a_session_always_sleeps_and_reports_the_step_first() {
    let mut controller = Controller::new(Recorder { failing_sleep: true, ..Recorder::default() });
    let finished = finish_with_sleep(&mut controller, Ok::<u8, SessionError<&'static str>>(7));
    assert!(matches!(finished, Err((SessionError::Controller(Error::Transport("sleep failed")), None))));

    let finished = finish_with_sleep::<_, u8>(
        &mut controller,
        Err(SessionError::Refused(BringupError::OperationInterrupted)),
    );
    assert!(matches!(
        finished,
        Err((SessionError::Refused(BringupError::OperationInterrupted), Some(Error::Transport("sleep failed"))))
    ));
    assert_eq!(controller.into_transport().commands, vec![COMMAND_SLEEP, COMMAND_SLEEP]);

    let mut controller = Controller::new(Recorder::default());
    assert_eq!(finish_with_sleep(&mut controller, Ok::<u8, SessionError<&'static str>>(7)).unwrap(), 7);
}

#[test]
fn presentation_refreshes_white_then_the_page_then_sleeps() {
    let white = [0xff; 8];
    let page = [0x0f; 8];
    let size = Size::new(8, 2);
    let mut display = small_display(false);
    refresh_step(&mut display, size, PixelFormat::Gray4, 4, &white, Waveform::Initialize, false).unwrap();
    refresh_step(&mut display, size, PixelFormat::Gray4, 4, &page, Waveform::Grayscale, false).unwrap();
    finish_presentation(&mut display, false).unwrap();
    let sent = commands(display);
    let refreshes = sent.iter().filter(|command| **command == COMMAND_DISPLAY_BUFFER_AREA).count();
    let loads = sent.iter().filter(|command| **command == COMMAND_LOAD_IMAGE_AREA).count();
    assert_eq!((refreshes, loads), (2, 2));
    assert_eq!(sent.last(), Some(&COMMAND_SLEEP));
    assert_eq!(sent.iter().filter(|command| **command == COMMAND_SLEEP).count(), 1);
}

#[test]
fn interrupted_presentation_only_puts_the_controller_to_sleep() {
    let white = [0xff; 8];
    let mut display = small_display(false);
    let error = refresh_step(&mut display, Size::new(8, 2), PixelFormat::Gray4, 4, &white, Waveform::Initialize, true)
        .unwrap_err();
    assert!(matches!(error, (SessionError::Refused(BringupError::OperationInterrupted), None)));
    assert_eq!(commands(display), vec![COMMAND_SLEEP]);

    let mut display = small_display(false);
    let error = finish_presentation(&mut display, true).unwrap_err();
    assert!(matches!(error, (SessionError::Refused(BringupError::OperationInterrupted), None)));
    assert_eq!(commands(display), vec![COMMAND_SLEEP]);
}

#[test]
fn failed_presentation_sleep_is_requested_once_more() {
    let mut display = small_display(true);
    let error = finish_presentation(&mut display, false).unwrap_err();
    assert!(matches!(
        error,
        (SessionError::Controller(Error::Transport("sleep failed")), Some(Error::Transport("sleep failed")))
    ));
    assert_eq!(commands(display), vec![COMMAND_SLEEP, COMMAND_SLEEP]);
}

#[test]
fn invalid_page_is_refused_before_any_refresh_and_the_controller_sleeps() {
    let short = [0xff; 7];
    let mut display = small_display(false);
    let error = refresh_step(&mut display, Size::new(8, 2), PixelFormat::Gray4, 4, &short, Waveform::Initialize, false)
        .unwrap_err();
    assert!(matches!(error, (SessionError::Controller(Error::InvalidUpdate(UpdateError::ShortBuffer)), None)));
    assert_eq!(commands(display), vec![COMMAND_SLEEP]);
}

#[test]
fn white_cleanup_refreshes_once_then_sleeps() {
    let white = [0xff; 8];
    let size = Size::new(8, 2);
    let mut display = small_display(false);
    refresh_step(&mut display, size, PixelFormat::Gray4, 4, &white, Waveform::Initialize, false).unwrap();
    finish_cleanup(&mut display, false).unwrap();
    let sent = commands(display);
    assert_eq!(sent.iter().filter(|command| **command == COMMAND_DISPLAY_BUFFER_AREA).count(), 1);
    assert_eq!(sent.last(), Some(&COMMAND_SLEEP));

    let mut display = small_display(true);
    let error = finish_cleanup(&mut display, false).unwrap_err();
    assert!(matches!(error, (SessionError::Controller(Error::Transport("sleep failed")), None)));
    assert_eq!(commands(display), vec![COMMAND_SLEEP]);

    let mut display = small_display(false);
    let error = finish_cleanup(&mut display, true).unwrap_err();
    assert!(matches!(error, (SessionError::Refused(BringupError::OperationInterrupted), None)));
    assert_eq!(commands(display), vec![COMMAND_SLEEP]);
}

#[test]
fn scope_guard_sleeps_unless_resource_is_already_known_sleeping() {
    let mut sleeps = 0;

    // A session that ends on a failed step is put to sleep once.
    let mut controller = Controller::new(Recorder::default());
    let finished = finish_with_sleep::<_, ()>(
        &mut controller,
        Err(SessionError::Refused(BringupError::OperationInterrupted)),
    );
    assert!(finished.is_err());
    sleeps += controller.into_transport().commands.iter().filter(|command| **command == COMMAND_SLEEP).count();
    assert_eq!(sleeps, 1);

    // A display already put to sleep is not asked to sleep again.
    let mut display = small_display(false);
    finish_presentation(&mut display, false).unwrap();
    sleeps += commands(display).iter().filter(|command| **command == COMMAND_SLEEP).count();
    assert_eq!(sleeps, 2);
}

#[test]
fn logical_pages_rotate_into_the_native_panel_buffer() {
    let mut logical = Framebuffer::new(Size::new(2, 3), Gray8::white()).unwrap();
    logical.set(Point::new(0, 0), Gray8::black());
    let portrait = PanelProfile { panel_size: Size::new(3, 2), rotation_degrees: 90, ..profile(None, None) };
    let native = rotate_to_panel(&portrait, &logical).unwrap();
    assert_eq!(native.size(), Size::new(3, 2));
    assert_eq!(native.get(Point::new(2, 0)), Some(Gray8::black()));
    assert_eq!(native.get(Point::new(0, 0)), Some(Gray8::white()));

    let skewed = PanelProfile { rotation_degrees: 45, ..profile(None, None) };
    assert_eq!(
        rotate_to_panel(&skewed, &logical).unwrap_err().message(),
        "panel profile contains an invalid rotation"
    );
    let landscape = PanelProfile { panel_size: Size::new(3, 2), rotation_degrees: 180, ..profile(None, None) };
    assert_eq!(
        rotate_to_panel(&landscape, &logical).unwrap_err().message(),
        "specimen rotated by 180 degrees is 2×3, but the profile expects 3×2"
    );
}
